use vstd::prelude::*;
use crate::ast::Node;
use crate::transform::{any_match, has_match, rewritten, all_rewritten, shape_of, Shape};

verus! {

/// `a` and `b` are the same tree: same constructs, same names and texts,
/// same children in the same order.
pub open spec fn same_tree(a: Node, b: Node) -> bool
    decreases a,
{
    match a {
        Node::Ident { sym } => b matches Node::Ident { sym: s2 } && s2@ == sym@,
        Node::Str { value } => b matches Node::Str { value: v2 } && v2@ == value@,
        Node::Member { obj, prop } => {
            &&& b matches Node::Member { obj: o2, prop: p2 }
            &&& p2@ == prop@
            &&& same_tree(*obj, *o2)
        },
        Node::Call { callee, args } => {
            &&& b matches Node::Call { callee: c2, args: a2 }
            &&& same_tree(*callee, *c2)
            &&& same_trees(args@, a2@)
        },
        Node::FnDecl { name, body } => {
            &&& b matches Node::FnDecl { name: n2, body: b2 }
            &&& n2@ == name@
            &&& same_trees(body@, b2@)
        },
        Node::Import { local, src } => {
            &&& b matches Node::Import { local: l2, src: s2 }
            &&& l2@ == local@
            &&& s2@ == src@
        },
        Node::Other { kind, children } => {
            &&& b matches Node::Other { kind: k2, children: c2 }
            &&& k2@ == kind@
            &&& same_trees(children@, c2@)
        },
    }
}

/// `s` and `t` hold the same trees in the same order.
pub open spec fn same_trees(s: Seq<Node>, t: Seq<Node>) -> bool
    decreases s,
{
    &&& t.len() == s.len()
    &&& (s.len() > 0 ==> {
        &&& same_trees(s.subrange(0, s.len() - 1), t.subrange(0, t.len() - 1))
        &&& same_tree(s[s.len() - 1], t[t.len() - 1])
    })
}

/// A tree without a recognized call comes out of the rewrite unchanged.
pub proof fn lemma_unmatched_unchanged(old: Node, new: Node, ctx: Option<Seq<char>>)
    requires
        !has_match(old),
        rewritten(old, new, ctx),
    ensures
        same_tree(old, new),
    decreases old,
{
    match old {
        Node::Member { obj, .. } => {
            lemma_unmatched_unchanged(*obj, *new->Member_obj, ctx);
        },
        Node::Call { callee, args } => {
            lemma_unmatched_unchanged(*callee, *new->Call_callee, ctx);
            lemma_unmatched_all_unchanged(args@, new->Call_args@, ctx);
        },
        Node::FnDecl { name, body } => {
            lemma_unmatched_all_unchanged(body@, new->FnDecl_body@, Some(name@));
        },
        Node::Other { children, .. } => {
            lemma_unmatched_all_unchanged(children@, new->Other_children@, ctx);
        },
        _ => {},
    }
}

/// A sequence without a recognized call comes out of the rewrite unchanged.
pub proof fn lemma_unmatched_all_unchanged(old: Seq<Node>, new: Seq<Node>, ctx: Option<Seq<char>>)
    requires
        !any_match(old),
        all_rewritten(old, new, ctx),
    ensures
        same_trees(old, new),
    decreases old,
{
    if old.len() > 0 {
        lemma_unmatched_all_unchanged(
            old.subrange(0, old.len() - 1),
            new.subrange(0, new.len() - 1),
            ctx,
        );
        lemma_unmatched_unchanged(old[old.len() - 1], new[new.len() - 1], ctx);
    }
}

/// A `useFragment` call with other than three arguments, and no recognized
/// call among them, comes out of the rewrite exactly as it went in.
pub proof fn lemma_arity_guard(old: Node, new: Node, ctx: Option<Seq<char>>)
    requires
        old is Call,
        *old->Call_callee matches Node::Ident { sym } && sym@ == "useFragment"@,
        old->Call_args.len() != 3,
        !any_match(old->Call_args@),
        rewritten(old, new, ctx),
    ensures
        same_tree(old, new),
{
    reveal_strlit("useFragment");
    reveal_strlit("useQueryFragment");
    assert("useFragment"@.len() != "useQueryFragment"@.len());
    let callee = old->Call_callee;
    assert(!has_match(*callee));
    assert(shape_of(*callee, old->Call_args.len() as int) is None);
    lemma_unmatched_unchanged(old, new, ctx);
}

/// Rewriting a `useFragment` call gives a call that is not recognized any
/// more, wrapping an argument that is not recognized either: a second pass
/// leaves both as they are.
pub proof fn lemma_fragment_rewrite_settles(old: Node, new: Node, ctx: Option<Seq<char>>)
    requires
        old matches Node::Call { callee, args } && shape_of(*callee, args.len() as int) == Some(
            Shape::Fragment,
        ),
        rewritten(old, new, ctx),
    ensures
        new matches Node::Call { callee, args } && shape_of(*callee, args.len() as int) is None,
        new->Call_args@[1] matches Node::Call { callee, args } && shape_of(
            *callee,
            args.len() as int,
        ) is None,
{
    reveal_strlit("useFragment");
    reveal_strlit("useQueryFragment");
    assert("useFragment"@.len() != "useQueryFragment"@.len());
    assert(rewritten(*old->Call_callee, *new->Call_callee, ctx));
    assert(*new->Call_callee == *old->Call_callee);
}

} // verus!
