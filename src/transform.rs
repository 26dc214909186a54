use vstd::prelude::*;
use vstd::string::*;
use crate::ast::{Node, Program};
use crate::text::{contains_text, has_substring, text_is};

verus! {

/// The two recognized fragment-call forms.
#[derive(PartialEq, Eq, Structural, Debug, Clone, Copy)]
pub enum Shape {
    /// `useFragment(ref, typeRef, shapeFn)`.
    Fragment,
    /// `useQueryFragment(ref, shapeFn)`.
    QueryFragment,
}

/// Why a recognized call could not be rewritten.
#[derive(PartialEq, Eq, Structural, Debug, Clone, Copy)]
pub enum TransformError {
    /// The call stands outside every named function declaration.
    MissingEnclosingFunction,
    /// The type reference of a `useFragment` call is not a property access.
    UnresolvableTypeReference,
}

/// Which form, if any, a call with this callee and argument count has.
pub open spec fn shape_of(callee: Node, arity: int) -> Option<Shape> {
    match callee {
        Node::Ident { sym } => if sym@ == "useFragment"@ && arity == 3 {
            Some(Shape::Fragment)
        } else if sym@ == "useQueryFragment"@ && arity == 2 {
            Some(Shape::QueryFragment)
        } else {
            None
        },
        _ => None,
    }
}

/// The entity name of a type reference `X.Y`: the property `Y`.
pub open spec fn type_name_of(e: Node) -> Option<Seq<char>> {
    match e {
        Node::Member { prop, .. } => Some(prop@),
        _ => None,
    }
}

/// The generated name for a recognized call, or why there is none.
pub open spec fn call_outcome(shape: Shape, args: Seq<Node>, ctx: Option<Seq<char>>) -> Result<
    Seq<char>,
    TransformError,
> {
    match ctx {
        None => Err(TransformError::MissingEnclosingFunction),
        Some(f) => match shape {
            Shape::Fragment => match type_name_of(args[1]) {
                None => Err(TransformError::UnresolvableTypeReference),
                Some(t) => Ok(f + t + "Fragment"@),
            },
            Shape::QueryFragment => Ok(f + "QueryFragment"@),
        },
    }
}

/// The method of `e` that wraps the shape argument.
pub open spec fn marker_method(shape: Shape) -> Seq<char> {
    match shape {
        Shape::Fragment => "fragment"@,
        Shape::QueryFragment => "queryFragment"@,
    }
}

/// `m` is the member access `e.<method>` for this form.
pub open spec fn is_marker_callee(m: Node, shape: Shape) -> bool {
    &&& m matches Node::Member { obj, prop }
    &&& prop@ == marker_method(shape)
    &&& (*obj) matches Node::Ident { sym }
    &&& sym@ == "e"@
}

/// Some call site in `n`, under enclosing name `ctx`, fails with `e`.
pub open spec fn fails_with(n: Node, ctx: Option<Seq<char>>, e: TransformError) -> bool
    decreases n,
{
    match n {
        Node::Member { obj, .. } => fails_with(*obj, ctx, e),
        Node::Call { callee, args } => {
            ||| fails_with(*callee, ctx, e)
            ||| any_fails_with(args@, ctx, e)
            ||| (shape_of(*callee, args.len() as int) matches Some(s) && call_outcome(
                s,
                args@,
                ctx,
            ) == Err::<Seq<char>, TransformError>(e))
        },
        Node::FnDecl { name, body } => any_fails_with(body@, Some(name@), e),
        Node::Other { children, .. } => any_fails_with(children@, ctx, e),
        _ => false,
    }
}

/// Some node of `s`, under enclosing name `ctx`, fails with `e`.
pub open spec fn any_fails_with(s: Seq<Node>, ctx: Option<Seq<char>>, e: TransformError) -> bool
    decreases s,
{
    if s.len() == 0 {
        false
    } else {
        any_fails_with(s.subrange(0, s.len() - 1), ctx, e) || fails_with(s[s.len() - 1], ctx, e)
    }
}

/// Every recognized call site in `n` can be rewritten.
pub open spec fn rewritable(n: Node, ctx: Option<Seq<char>>) -> bool {
    &&& !fails_with(n, ctx, TransformError::MissingEnclosingFunction)
    &&& !fails_with(n, ctx, TransformError::UnresolvableTypeReference)
}

/// Every recognized call site in `s` can be rewritten.
pub open spec fn all_rewritable(s: Seq<Node>, ctx: Option<Seq<char>>) -> bool {
    &&& !any_fails_with(s, ctx, TransformError::MissingEnclosingFunction)
    &&& !any_fails_with(s, ctx, TransformError::UnresolvableTypeReference)
}

/// `n` holds a recognized call site.
pub open spec fn has_match(n: Node) -> bool
    decreases n,
{
    match n {
        Node::Member { obj, .. } => has_match(*obj),
        Node::Call { callee, args } => {
            ||| has_match(*callee)
            ||| any_match(args@)
            ||| shape_of(*callee, args.len() as int) is Some
        },
        Node::FnDecl { body, .. } => any_match(body@),
        Node::Other { children, .. } => any_match(children@),
        _ => false,
    }
}

/// Some node of `s` holds a recognized call site.
pub open spec fn any_match(s: Seq<Node>) -> bool
    decreases s,
{
    if s.len() == 0 {
        false
    } else {
        any_match(s.subrange(0, s.len() - 1)) || has_match(s[s.len() - 1])
    }
}

/// `new` is `old` with every recognized call site rewritten, depth first,
/// where `ctx` is the name of the innermost enclosing function declaration.
pub open spec fn rewritten(old: Node, new: Node, ctx: Option<Seq<char>>) -> bool
    decreases old,
{
    match old {
        Node::Member { obj, prop } => {
            &&& new matches Node::Member { obj: o2, prop: p2 }
            &&& p2 == prop
            &&& rewritten(*obj, *o2, ctx)
        },
        Node::Call { callee, args } => {
            &&& new matches Node::Call { callee: c2, args: a2 }
            &&& rewritten(*callee, *c2, ctx)
            &&& match shape_of(*callee, args.len() as int) {
                None => all_rewritten(args@, a2@, ctx),
                Some(shape) => {
                    &&& a2.len() == 2
                    &&& rewritten(args@[0], a2@[0], ctx)
                    &&& a2@[1] matches Node::Call { callee: m, args: w }
                    &&& is_marker_callee(*m, shape)
                    &&& w.len() == args.len()
                    &&& w@[0] matches Node::Str { value }
                    &&& call_outcome(shape, args@, ctx) == Ok::<Seq<char>, TransformError>(value@)
                    &&& rewritten(args@[1], w@[1], ctx)
                    &&& (shape == Shape::Fragment ==> rewritten(args@[2], w@[2], ctx))
                },
            }
        },
        Node::FnDecl { name, body } => {
            &&& new matches Node::FnDecl { name: n2, body: b2 }
            &&& n2 == name
            &&& all_rewritten(body@, b2@, Some(name@))
        },
        Node::Other { kind, children } => {
            &&& new matches Node::Other { kind: k2, children: c2 }
            &&& k2 == kind
            &&& all_rewritten(children@, c2@, ctx)
        },
        _ => new == old,
    }
}

/// Each node of `new` is the rewrite of the node of `old` at the same place.
pub open spec fn all_rewritten(old: Seq<Node>, new: Seq<Node>, ctx: Option<Seq<char>>) -> bool
    decreases old,
{
    &&& new.len() == old.len()
    &&& (old.len() > 0 ==> {
        &&& all_rewritten(old.subrange(0, old.len() - 1), new.subrange(0, new.len() - 1), ctx)
        &&& rewritten(old[old.len() - 1], new[new.len() - 1], ctx)
    })
}

/// `new` is the call `callee(args...)` of this form with its arguments
/// replaced by `[args[0], e.<method>("<name>", args[1..]...)]`.
pub open spec fn wrapped_call(
    shape: Shape,
    callee: Node,
    args: Seq<Node>,
    ctx: Option<Seq<char>>,
    new: Node,
) -> bool {
    &&& new matches Node::Call { callee: c2, args: a2 }
    &&& *c2 == callee
    &&& a2.len() == 2
    &&& a2[0] == args[0]
    &&& a2[1] matches Node::Call { callee: m, args: w }
    &&& is_marker_callee(*m, shape)
    &&& w.len() == args.len()
    &&& w[0] matches Node::Str { value }
    &&& call_outcome(shape, args, ctx) == Ok::<Seq<char>, TransformError>(value@)
    &&& forall|i: int| 1 <= i < args.len() ==> #[trigger] w[i] == args[i]
}

/// Rewriting keeps the entity name of a type reference.
pub proof fn lemma_rewritten_type_name(old: Node, new: Node, ctx: Option<Seq<char>>)
    requires
        rewritten(old, new, ctx),
    ensures
        type_name_of(new) == type_name_of(old),
{
}

/// Each node of a rewritten sequence is the rewrite of its counterpart.
pub proof fn lemma_all_rewritten_at(old: Seq<Node>, new: Seq<Node>, ctx: Option<Seq<char>>, i: int)
    requires
        all_rewritten(old, new, ctx),
        0 <= i < old.len(),
    ensures
        rewritten(old[i], new[i], ctx),
    decreases old.len(),
{
    if i < old.len() - 1 {
        lemma_all_rewritten_at(
            old.subrange(0, old.len() - 1),
            new.subrange(0, new.len() - 1),
            ctx,
            i,
        );
    }
}

/// A failure in a prefix is a failure of the whole sequence.
pub proof fn lemma_fails_prefix(s: Seq<Node>, k: int, ctx: Option<Seq<char>>, e: TransformError)
    requires
        0 <= k <= s.len(),
        any_fails_with(s.subrange(0, k), ctx, e),
    ensures
        any_fails_with(s, ctx, e),
    decreases s.len() - k,
{
    if k < s.len() {
        assert(s.subrange(0, k + 1).subrange(0, k) =~= s.subrange(0, k));
        lemma_fails_prefix(s, k + 1, ctx, e);
    } else {
        assert(s.subrange(0, k) =~= s);
    }
}

/// The enclosing name held by an optional string.
pub open spec fn name_view(o: Option<String>) -> Option<Seq<char>> {
    match o {
        Some(s) => Some(s@),
        None => None,
    }
}

/// Recognizes the callee and argument count of a call.
pub fn recognize(callee: &Node, arity: usize) -> (r: Option<Shape>)
    ensures
        r == shape_of(*callee, arity as int),
{
    match callee {
        Node::Ident { sym } => {
            if text_is(sym, "useFragment") && arity == 3 {
                Some(Shape::Fragment)
            } else if text_is(sym, "useQueryFragment") && arity == 2 {
                Some(Shape::QueryFragment)
            } else {
                None
            }
        },
        _ => None,
    }
}

/// The property name of a type reference `X.Y`.
fn entity_name(e: &Node) -> (r: Option<String>)
    ensures
        match type_name_of(*e) {
            Some(t) => r matches Some(s) && s@ == t,
            None => r is None,
        },
{
    match e {
        Node::Member { prop, .. } => Some(prop.clone()),
        _ => None,
    }
}

/// The identifier `e` that the injected import binds.
fn marker_ident() -> (r: Node)
    ensures
        r matches Node::Ident { sym } && sym@ == "e"@,
{
    Node::Ident { sym: String::from_str("e") }
}

/// Rewrites one recognized call whose arguments were already visited,
/// under the enclosing function name `enclosing`.
pub fn rewrite_call(shape: Shape, callee: Node, args: Vec<Node>, enclosing: &Option<String>) -> (r:
    Result<Node, TransformError>)
    requires
        shape_of(callee, args.len() as int) == Some(shape),
    ensures
        r is Ok <==> call_outcome(shape, args@, name_view(*enclosing)) is Ok,
        r matches Err(e) ==> call_outcome(shape, args@, name_view(*enclosing)) == Err::<
            Seq<char>,
            TransformError,
        >(e),
        r matches Ok(m) ==> wrapped_call(shape, callee, args@, name_view(*enclosing), m),
{
    let f = match enclosing {
        Some(f) => f,
        None => {
            return Err(TransformError::MissingEnclosingFunction);
        },
    };
    let mut args = args;
    let mut w: Vec<Node> = Vec::new();
    let mut name = f.clone();
    let method;
    match shape {
        Shape::Fragment => {
            let t = match entity_name(&args[1]) {
                Some(t) => t,
                None => {
                    return Err(TransformError::UnresolvableTypeReference);
                },
            };
            name.append(t.as_str());
            name.append("Fragment");
            method = String::from_str("fragment");
            let shape_fn = args.remove(2);
            let ty = args.remove(1);
            w.push(Node::Str { value: name });
            w.push(ty);
            w.push(shape_fn);
        },
        Shape::QueryFragment => {
            name.append("QueryFragment");
            method = String::from_str("queryFragment");
            let shape_fn = args.remove(1);
            w.push(Node::Str { value: name });
            w.push(shape_fn);
        },
    }
    let m = Node::Member { obj: Box::new(marker_ident()), prop: method };
    args.push(Node::Call { callee: Box::new(m), args: w });
    Ok(Node::Call { callee: Box::new(callee), args })
}

/// The walk's state: the innermost enclosing function name, the file
/// name, and whether a call was rewritten so far.
pub struct TransformVisitor {
    pub function_name: Option<String>,
    pub filename: Option<String>,
    pub requires_import: bool,
}

impl TransformVisitor {
    /// The enclosing function name as characters.
    pub open spec fn context(&self) -> Option<Seq<char>> {
        name_view(self.function_name)
    }

    /// Rewrites every recognized call in `n`, children before parents.
    pub fn visit_node(&mut self, n: Node) -> (r: Result<Node, TransformError>)
        ensures
            final(self).function_name == old(self).function_name,
            final(self).filename == old(self).filename,
            r is Ok <==> rewritable(n, old(self).context()),
            r matches Err(e) ==> fails_with(n, old(self).context(), e),
            r matches Ok(m) ==> rewritten(n, m, old(self).context()),
            r is Ok ==> final(self).requires_import == (old(self).requires_import || has_match(n)),
        decreases n, 1nat,
    {
        match n {
            Node::Member { obj, prop } => {
                match self.visit_node(*obj) {
                    Ok(o) => Ok(Node::Member { obj: Box::new(o), prop }),
                    Err(e) => Err(e),
                }
            },
            Node::Call { callee, args } => self.visit_call(callee, args),
            Node::FnDecl { name, body } => self.visit_fn_decl(name, body),
            Node::Other { kind, children } => {
                let ghost n0 = Node::Other { kind, children };
                assert(decreases_to!(n0 => n0->Other_children));
                match self.visit_nodes(children) {
                    Ok(c) => Ok(Node::Other { kind, children: c }),
                    Err(e) => Err(e),
                }
            },
            _ => Ok(n),
        }
    }

    /// Visits the callee and the arguments of a call, then rewrites the call
    /// itself if it is recognized.
    fn visit_call(&mut self, callee: Box<Node>, args: Vec<Node>) -> (r: Result<Node, TransformError>)
        ensures
            final(self).function_name == old(self).function_name,
            final(self).filename == old(self).filename,
            r is Ok <==> rewritable((Node::Call { callee, args }), old(self).context()),
            r matches Err(e) ==> fails_with((Node::Call { callee, args }), old(self).context(), e),
            r matches Ok(m) ==> rewritten((Node::Call { callee, args }), m, old(self).context()),
            r is Ok ==> final(self).requires_import == (old(self).requires_import || has_match(
                (Node::Call { callee, args }),
            )),
        decreases (Node::Call { callee, args }), 0nat,
    {
        let ghost n = Node::Call { callee, args };
        let ghost ctx = self.context();
        let ghost a0 = args@;
        let shape = recognize(&callee, args.len());
        assert(decreases_to!(n => n->Call_args));
        assert(decreases_to!(n => n->Call_callee));
        let c = match self.visit_node(*callee) {
            Ok(c) => c,
            Err(e) => {
                return Err(e);
            },
        };
        let a = match self.visit_nodes(args) {
            Ok(a) => a,
            Err(e) => {
                return Err(e);
            },
        };
        match shape {
            None => Ok(Node::Call { callee: Box::new(c), args: a }),
            Some(s) => {
                let ghost a1 = a@;
                assert(c == *callee);
                proof {
                    lemma_all_rewritten_at(a0, a1, ctx, 0);
                    lemma_all_rewritten_at(a0, a1, ctx, 1);
                    lemma_rewritten_type_name(a0[1], a1[1], ctx);
                    if s == Shape::Fragment {
                        lemma_all_rewritten_at(a0, a1, ctx, 2);
                    }
                    assert(call_outcome(s, a1, ctx) == call_outcome(s, a0, ctx));
                }
                let res = rewrite_call(s, c, a, &self.function_name);
                match res {
                    Ok(m) => {
                        self.requires_import = true;
                        Ok(m)
                    },
                    Err(e) => Err(e),
                }
            },
        }
    }

    /// Visits a function declaration's body with its name as the enclosing
    /// name, and restores the previous one afterwards.
    fn visit_fn_decl(&mut self, name: String, body: Vec<Node>) -> (r: Result<Node, TransformError>)
        ensures
            final(self).function_name == old(self).function_name,
            final(self).filename == old(self).filename,
            r is Ok <==> rewritable((Node::FnDecl { name, body }), old(self).context()),
            r matches Err(e) ==> fails_with((Node::FnDecl { name, body }), old(self).context(), e),
            r matches Ok(m) ==> rewritten((Node::FnDecl { name, body }), m, old(self).context()),
            r is Ok ==> final(self).requires_import == (old(self).requires_import || has_match(
                (Node::FnDecl { name, body }),
            )),
        decreases (Node::FnDecl { name, body }), 0nat,
    {
        let ghost n = Node::FnDecl { name, body };
        assert(decreases_to!(n => n->FnDecl_body));
        let saved = self.function_name.take();
        self.function_name = Some(name.clone());
        let res = self.visit_nodes(body);
        self.function_name = saved;
        match res {
            Ok(b) => Ok(Node::FnDecl { name, body: b }),
            Err(e) => Err(e),
        }
    }

    /// Rewrites every node of `v` in order, stopping at the first failure.
    #[verifier::loop_isolation(false)]
    pub fn visit_nodes(&mut self, v: Vec<Node>) -> (r: Result<Vec<Node>, TransformError>)
        ensures
            final(self).function_name == old(self).function_name,
            final(self).filename == old(self).filename,
            r is Ok <==> all_rewritable(v@, old(self).context()),
            r matches Err(e) ==> any_fails_with(v@, old(self).context(), e),
            r matches Ok(w) ==> all_rewritten(v@, w@, old(self).context()),
            r is Ok ==> final(self).requires_import == (old(self).requires_import || any_match(v@)),
        decreases v, 0nat,
    {
        let ghost v0 = v;
        let ghost s = v@;
        let ghost ctx = self.context();
        let ghost imp0 = self.requires_import;
        let mut rest = v;
        let mut out: Vec<Node> = Vec::new();
        while rest.len() > 0
            invariant
                out.len() + rest.len() == s.len(),
                rest@ == s.subrange(out.len() as int, s.len() as int),
                self.function_name == old(self).function_name,
                self.filename == old(self).filename,
                ctx == self.context(),
                all_rewritten(s.subrange(0, out.len() as int), out@, ctx),
                all_rewritable(s.subrange(0, out.len() as int), ctx),
                self.requires_import == (imp0 || any_match(s.subrange(0, out.len() as int))),
            decreases rest.len(),
        {
            let ghost k = out.len() as int;
            let ghost o0 = out@;
            let x = rest.remove(0);
            assert(x == s[k]);
            proof {
                vstd::std_specs::vec::axiom_vec_index_decreases(v0, k);
                assert(decreases_to!(v0, 0nat => x, 1nat));
            }
            let ghost pre = s.subrange(0, k + 1);
            assert(pre.subrange(0, k) =~= s.subrange(0, k));
            assert(pre[k] == x);
            match self.visit_node(x) {
                Ok(y) => {
                    out.push(y);
                    assert(out@.subrange(0, k) =~= o0);
                },
                Err(e) => {
                    proof {
                        lemma_fails_prefix(s, k + 1, ctx, e);
                    }
                    return Err(e);
                },
            }
        }
        assert(s.subrange(0, s.len() as int) =~= s);
        Ok(out)
    }
}

/// The file name asks for the whole file to be skipped: it contains
/// `manifest`.
pub open spec fn excluded(filename: Option<String>) -> bool {
    filename matches Some(f) && has_substring(f@, "manifest"@)
}

/// `n` is the declaration `import e from "@/dbschema/edgeql-js"`.
pub open spec fn is_import_marker(n: Node) -> bool {
    &&& n matches Node::Import { local, src }
    &&& local@ == "e"@
    &&& src@ == "@/dbschema/edgeql-js"@
}

/// Where the import goes in a module body of `len` items: after the first
/// item, which keeps its place.
pub open spec fn import_slot(len: int) -> int {
    if len == 0 {
        0
    } else {
        1
    }
}

/// `new` is the rewrite of `old` with the import inserted at its slot.
pub open spec fn rewritten_with_import(old: Seq<Node>, new: Seq<Node>, ctx: Option<Seq<char>>) -> bool {
    &&& new.len() == old.len() + 1
    &&& is_import_marker(new[import_slot(old.len() as int)])
    &&& all_rewritten(old, new.remove(import_slot(old.len() as int)), ctx)
}

/// The import declaration that the rewritten calls need.
pub fn import_marker() -> (r: Node)
    ensures
        is_import_marker(r),
{
    Node::Import { local: String::from_str("e"), src: String::from_str("@/dbschema/edgeql-js") }
}

/// Rewrites every recognized call of a module and, if any was rewritten,
/// inserts the import they need; returns the module and whether the import
/// was inserted. A file whose name contains `manifest` is returned as is.
pub fn process_transform(program: Program, filename: Option<String>) -> (r: Result<
    (Program, bool),
    TransformError,
>)
    ensures
        excluded(filename) ==> r == Ok::<(Program, bool), TransformError>((program, false)),
        !excluded(filename) ==> (r is Ok <==> all_rewritable(program.body@, None)),
        !excluded(filename) ==> (r matches Err(e) ==> any_fails_with(program.body@, None, e)),
        !excluded(filename) ==> (r matches Ok(out) ==> out.1 == any_match(program.body@)),
        !excluded(filename) ==> (r matches Ok(out) ==> (out.1 ==> rewritten_with_import(
            program.body@,
            out.0.body@,
            None,
        ))),
        !excluded(filename) ==> (r matches Ok(out) ==> (!out.1 ==> all_rewritten(
            program.body@,
            out.0.body@,
            None,
        ))),
{
    let skip = match &filename {
        Some(f) => contains_text(f.as_str(), "manifest"),
        None => false,
    };
    if skip {
        return Ok((program, false));
    }
    let mut visitor = TransformVisitor { function_name: None, filename, requires_import: false };
    let mut body = match visitor.visit_nodes(program.body) {
        Ok(b) => b,
        Err(e) => {
            return Err(e);
        },
    };
    if visitor.requires_import {
        let ghost rewritten_body = body@;
        let at: usize = if body.len() == 0 {
            0
        } else {
            1
        };
        body.insert(at, import_marker());
        assert(body@.remove(at as int) =~= rewritten_body);
    }
    Ok((Program { body }, visitor.requires_import))
}

} // verus!
