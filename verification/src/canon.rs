//! The mathematical model of canonical trees and of the syntax-rewrite
//! pass: a head value, ordered children, and the stack of context scopes
//! that the dissemination pass copies down to every descendant.
use vstd::prelude::*;

verus! {

use crate::ast::AstVal;
use crate::diag::ErrKind;
use crate::model::{head_symbol, veq, vm, vms, ValModel};
use crate::syntax::SyntaxNode;

/// The model of a canonical tree node.
pub struct NodeModel {
    /// The head value.
    pub this: ValModel,
    /// The ordered children.
    pub body: Seq<NodeModel>,
    /// The context scopes: each a set of values bound at and below this
    /// node, in the order they were attached.
    pub context: Seq<Seq<ValModel>>,
}

/// The model of each node of `s`.
pub open spec fn nms(s: Seq<SyntaxNode>) -> Seq<NodeModel>
    decreases s,
{
    if s.len() == 0 {
        Seq::empty()
    } else {
        nms(s.drop_last()).push(nm(s.last()))
    }
}

/// The model of each scope vector of `s`.
pub open spec fn ctxm(s: Seq<Vec<AstVal>>) -> Seq<Seq<ValModel>>
    decreases s,
{
    if s.len() == 0 {
        Seq::empty()
    } else {
        ctxm(s.drop_last()).push(vms(s.last()@))
    }
}

/// The model of `n`.
pub open spec fn nm(n: SyntaxNode) -> NodeModel
    decreases n,
{
    NodeModel { this: vm(n.this), body: nms(n.body@), context: ctxm(n.context@) }
}

/// [`nms`] keeps the length.
pub broadcast proof fn nms_len(s: Seq<SyntaxNode>)
    ensures
        #[trigger] nms(s).len() == s.len(),
    decreases s.len(),
{
    if s.len() > 0 {
        nms_len(s.drop_last());
    }
}

/// [`nms`] maps each node to its model.
pub broadcast proof fn nms_index(s: Seq<SyntaxNode>, i: int)
    requires
        0 <= i < s.len(),
    ensures
        #[trigger] nms(s)[i] == nm(s[i]),
    decreases s.len(),
{
    nms_len(s.drop_last());
    if i < s.len() - 1 {
        nms_index(s.drop_last(), i);
    }
}

/// [`ctxm`] keeps the length.
pub broadcast proof fn ctxm_len(s: Seq<Vec<AstVal>>)
    ensures
        #[trigger] ctxm(s).len() == s.len(),
    decreases s.len(),
{
    if s.len() > 0 {
        ctxm_len(s.drop_last());
    }
}

/// [`ctxm`] maps each scope vector to its model.
pub broadcast proof fn ctxm_index(s: Seq<Vec<AstVal>>, i: int)
    requires
        0 <= i < s.len(),
    ensures
        #[trigger] ctxm(s)[i] == vms(s[i]@),
    decreases s.len(),
{
    ctxm_len(s.drop_last());
    if i < s.len() - 1 {
        ctxm_index(s.drop_last(), i);
    }
}

/// `m` equals some value of some scope of `ctx`, by structural equality.
pub open spec fn in_ctx(ctx: Seq<Seq<ValModel>>, m: ValModel) -> bool {
    exists|i: int, j: int|
        0 <= i < ctx.len() && 0 <= j < ctx[i].len() && veq(m, #[trigger] ctx[i][j])
}

/// A leaf node: the value as head, no children, no context.
pub open spec fn leaf_node(m: ValModel) -> NodeModel {
    NodeModel { this: m, body: Seq::empty(), context: Seq::empty() }
}

/// The children of `n.body` with `anc` visible: every node's own scopes
/// followed by all scopes of its ancestors.
pub open spec fn dissem(n: NodeModel, anc: Seq<Seq<ValModel>>) -> NodeModel
    decreases n,
{
    NodeModel {
        this: n.this,
        context: n.context + anc,
        body: dissem_seq(n.body, n.context + anc),
    }
}

/// [`dissem`] over each node of `s`.
pub open spec fn dissem_seq(s: Seq<NodeModel>, anc: Seq<Seq<ValModel>>) -> Seq<NodeModel>
    decreases s,
{
    if s.len() == 0 {
        Seq::empty()
    } else {
        dissem_seq(s.drop_last(), anc).push(dissem(s.last(), anc))
    }
}

/// [`dissem_seq`] keeps the length.
pub broadcast proof fn dissem_seq_len(s: Seq<NodeModel>, anc: Seq<Seq<ValModel>>)
    ensures
        #[trigger] dissem_seq(s, anc).len() == s.len(),
    decreases s.len(),
{
    if s.len() > 0 {
        dissem_seq_len(s.drop_last(), anc);
    }
}

/// [`dissem_seq`] maps each node.
pub broadcast proof fn dissem_seq_index(s: Seq<NodeModel>, anc: Seq<Seq<ValModel>>, i: int)
    requires
        0 <= i < s.len(),
    ensures
        #[trigger] dissem_seq(s, anc)[i] == dissem(s[i], anc),
    decreases s.len(),
{
    dissem_seq_len(s.drop_last(), anc);
    if i < s.len() - 1 {
        dissem_seq_index(s.drop_last(), anc, i);
    }
}

/// Expanding the elements of `args` from position `i` on, left to right;
/// the first fatal condition wins.
pub open spec fn expand_args(args: Seq<ValModel>, i: int) -> Result<Seq<NodeModel>, ErrKind>
    decreases args, 1int, args.len() - i,
{
    if i >= args.len() || i < 0 {
        Ok(Seq::empty())
    } else {
        match dispatch_spec(args[i]) {
            Err(e) => Err(e),
            Ok(n) => match expand_args(args, i + 1) {
                Err(e) => Err(e),
                Ok(ns) => Ok(seq![n] + ns),
            },
        }
    }
}

/// The call rule: the head symbol as head, the remaining elements
/// expanded as children.
pub open spec fn call_spec(v: Seq<ValModel>, s: Seq<char>) -> Result<NodeModel, ErrKind>
    decreases v, 2int, 0int,
{
    match expand_args(v, 1) {
        Err(e) => Err(e),
        Ok(ns) => Ok(NodeModel { this: ValModel::VSym(s), body: ns, context: Seq::empty() }),
    }
}

/// The `if` rule: exactly three forms after the head, each wrapped in a
/// `do` node.
pub open spec fn if_spec(v: Seq<ValModel>) -> Result<NodeModel, ErrKind>
    decreases v, 2int, 0int,
{
    if v.len() != 4 {
        Err(ErrKind::IfArity)
    } else {
        match expand_args(v, 1) {
            Err(e) => Err(e),
            Ok(ns) => Ok(
                NodeModel {
                    this: ValModel::VSym("if"@),
                    body: seq![
                        do_wrap(ns[0]),
                        do_wrap(ns[1]),
                        do_wrap(ns[2]),
                    ],
                    context: Seq::empty(),
                },
            ),
        }
    }
}

/// A `do` node holding one child.
pub open spec fn do_wrap(n: NodeModel) -> NodeModel {
    NodeModel { this: ValModel::VSym("do"@), body: seq![n], context: Seq::empty() }
}

/// The `=` rule: exactly two operands, both expanded.
pub open spec fn equal_spec(v: Seq<ValModel>) -> Result<NodeModel, ErrKind>
    decreases v, 2int, 0int,
{
    if v.len() != 3 {
        Err(ErrKind::EqualArity)
    } else {
        match expand_args(v, 1) {
            Err(e) => Err(e),
            Ok(ns) => Ok(
                NodeModel { this: ValModel::VSym("="@), body: ns, context: Seq::empty() },
            ),
        }
    }
}

/// One `let` pair node for each binding: the symbol as first child, the
/// expanded value expression as second. A non-symbol binding target is
/// fatal.
pub open spec fn let_pairs_spec(b: Seq<ValModel>, k: int) -> Result<Seq<NodeModel>, ErrKind>
    decreases b, 1int, b.len() - 2 * k,
{
    if k < 0 || 2 * k + 1 >= b.len() {
        Ok(Seq::empty())
    } else if !(b[2 * k] is VSym) {
        Err(ErrKind::NonSymbolBinding)
    } else {
        match dispatch_spec(b[2 * k + 1]) {
            Err(e) => Err(e),
            Ok(n) => match let_pairs_spec(b, k + 1) {
                Err(e) => Err(e),
                Ok(ns) => Ok(
                    seq![
                        NodeModel {
                            this: ValModel::VSym("let"@),
                            body: seq![leaf_node(b[2 * k]), n],
                            context: Seq::empty(),
                        },
                    ] + ns,
                ),
            },
        }
    }
}

/// The binding targets of a binding vector, in order.
pub open spec fn bind_syms(b: Seq<ValModel>) -> Seq<ValModel> {
    Seq::new(b.len() / 2, |k: int| b[2 * k])
}

/// The `let` rule: an even binding vector, one pair node per binding, one
/// context scope holding every binding target, then the expanded body
/// forms.
pub open spec fn let_spec(v: Seq<ValModel>) -> Result<NodeModel, ErrKind>
    decreases v, 2int, 0int,
{
    if v.len() < 2 {
        Err(ErrKind::LetArity)
    } else {
        match v[1] {
            ValModel::VVec(b) => if b.len() % 2 != 0 {
                Err(ErrKind::LetBindingVector)
            } else {
                match let_pairs_spec(b, 0) {
                    Err(e) => Err(e),
                    Ok(pairs) => match expand_args(v, 2) {
                        Err(e) => Err(e),
                        Ok(rest) => Ok(
                            NodeModel {
                                this: ValModel::VSym("do"@),
                                body: pairs + rest,
                                context: seq![bind_syms(b)],
                            },
                        ),
                    },
                }
            },
            _ => Err(ErrKind::LetBindingVector),
        }
    }
}

/// One string leaf per parameter symbol; a non-symbol is fatal.
pub open spec fn param_leaves_spec(ps: Seq<ValModel>, i: int) -> Result<Seq<NodeModel>, ErrKind>
    decreases ps.len() - i,
{
    if i >= ps.len() || i < 0 {
        Ok(Seq::empty())
    } else {
        match ps[i] {
            ValModel::VSym(t) => match param_leaves_spec(ps, i + 1) {
                Err(e) => Err(e),
                Ok(ns) => Ok(seq![leaf_node(ValModel::VStr(t))] + ns),
            },
            _ => Err(ErrKind::NonSymbolParameter),
        }
    }
}

/// The `defn` rule: a symbol name, a parameter vector or nil, and at
/// least one body form; produces a `fn` node with a name child, a
/// parameters child and one `do` child holding every body form, and one
/// context scope holding the parameter symbols.
pub open spec fn defn_spec(v: Seq<ValModel>) -> Result<NodeModel, ErrKind>
    decreases v, 2int, 0int,
{
    if v.len() <= 3 {
        Err(ErrKind::DefnArity)
    } else {
        match v[1] {
            ValModel::VSym(name) => {
                let name_node = NodeModel {
                    this: ValModel::VSym("name"@),
                    body: seq![leaf_node(ValModel::VStr(name))],
                    context: Seq::empty(),
                };
                match v[2] {
                    ValModel::VVec(ps) => match param_leaves_spec(ps, 0) {
                        Err(e) => Err(e),
                        Ok(leaves) => {
                            let params_node = NodeModel {
                                this: ValModel::VSym("parameters"@),
                                body: leaves,
                                context: Seq::empty(),
                            };
                            match expand_args(v, 3) {
                                Err(e) => Err(e),
                                Ok(bodies) => Ok(
                                    NodeModel {
                                        this: ValModel::VSym("fn"@),
                                        body: seq![
                                            name_node,
                                            params_node,
                                            NodeModel {
                                                this: ValModel::VSym("do"@),
                                                body: bodies,
                                                context: Seq::empty(),
                                            },
                                        ],
                                        context: seq![ps],
                                    },
                                ),
                            }
                        },
                    },
                    ValModel::VNil => {
                        let params_node = NodeModel {
                            this: ValModel::VSym("parameters"@),
                            body: Seq::empty(),
                            context: Seq::empty(),
                        };
                        match expand_args(v, 3) {
                            Err(e) => Err(e),
                            Ok(bodies) => Ok(
                                NodeModel {
                                    this: ValModel::VSym("fn"@),
                                    body: seq![
                                        name_node,
                                        params_node,
                                        NodeModel {
                                            this: ValModel::VSym("do"@),
                                            body: bodies,
                                            context: Seq::empty(),
                                        },
                                    ],
                                    context: Seq::empty(),
                                },
                            ),
                        }
                    },
                    _ => Err(ErrKind::BadParameterList),
                }
            },
            _ => Err(ErrKind::NonSymbolName),
        }
    }
}

/// Rewriting one form: a list headed by a known form symbol follows that
/// form's rule, any other symbol-headed list is a call, a list with no
/// symbol head is fatal, and every other value becomes a leaf node.
pub open spec fn dispatch_spec(c: ValModel) -> Result<NodeModel, ErrKind>
    decreases c, 3int, 0int,
{
    match head_symbol(c) {
        Some(s) => {
            let v = c->VList_0;
            if s == "defn"@ {
                defn_spec(v)
            } else if s == "if"@ {
                if_spec(v)
            } else if s == "let"@ {
                let_spec(v)
            } else if s == "="@ {
                equal_spec(v)
            } else {
                call_spec(v, s)
            }
        },
        None => if c is VList {
            Err(ErrKind::NotCallable)
        } else {
            Ok(leaf_node(c))
        },
    }
}

/// An expansion that succeeds yields one node per element expanded.
pub proof fn lemma_expand_args_len(args: Seq<ValModel>, i: int)
    requires
        0 <= i <= args.len(),
    ensures
        expand_args(args, i) matches Ok(ns) ==> ns.len() == args.len() - i,
    decreases args.len() - i,
{
    if i < args.len() {
        if dispatch_spec(args[i]) is Ok {
            lemma_expand_args_len(args, i + 1);
        }
    }
}

/// The whole rewrite of a top-level form: the form's rule, then the
/// dissemination pass copying every node's scopes onto its descendants.
pub open spec fn syntax_spec(c: ValModel) -> Result<NodeModel, ErrKind> {
    match dispatch_spec(c) {
        Err(e) => Err(e),
        Ok(n) => Ok(dissem(n, Seq::empty())),
    }
}

} // verus!
