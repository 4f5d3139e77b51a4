//! The scope-aware syntax-rewrite pass: each top-level value becomes a
//! canonical tree, and binding forms register their bound names in
//! context scopes that a one-shot pass copies down to every descendant.
use vstd::prelude::*;

verus! {

use crate::ast::{clone_val, clone_vec, val_eq, AstVal};
use crate::canon::{
    bind_syms, call_spec, ctxm, defn_spec, dispatch_spec, dissem, dissem_seq, do_wrap, equal_spec,
    expand_args, if_spec, in_ctx, leaf_node, let_pairs_spec, let_spec, nm, nms, param_leaves_spec,
    syntax_spec, NodeModel,
};
use crate::diag::ErrKind;
use crate::model::{head_symbol, veq, vm, vms, ValModel};

broadcast use crate::model::vms_len, crate::model::vms_index, crate::canon::nms_len,
    crate::canon::nms_index, crate::canon::ctxm_len, crate::canon::ctxm_index,
    crate::canon::dissem_seq_len, crate::canon::dissem_seq_index;

/// A canonical tree node: a head value, ordered children, and the
/// context scopes attached to it.
#[derive(Debug)]
pub struct SyntaxNode {
    pub this: AstVal,
    pub body: Vec<SyntaxNode>,
    pub context: Vec<Vec<AstVal>>,
}

impl View for SyntaxNode {
    type V = NodeModel;

    open spec fn view(&self) -> NodeModel {
        nm(*self)
    }
}

impl SyntaxNode {
    /// An empty node headed by nil.
    pub fn new() -> (r: SyntaxNode)
        ensures
            r@ == (NodeModel {
                this: ValModel::VNil,
                body: Seq::empty(),
                context: Seq::empty(),
            }),
    {
        let r = SyntaxNode { this: AstVal::AstNil, body: Vec::new(), context: Vec::new() };
        proof {
            assert(nms(Seq::<SyntaxNode>::empty()) =~= Seq::<NodeModel>::empty());
            assert(ctxm(Seq::<Vec<AstVal>>::empty()) =~= Seq::<Seq<ValModel>>::empty());
        }
        r
    }

    /// A leaf node holding `a`.
    pub fn new_leaf(a: AstVal) -> (r: SyntaxNode)
        ensures
            r@ == leaf_node(a@),
    {
        let r = SyntaxNode { this: a, body: Vec::new(), context: Vec::new() };
        proof {
            assert(nms(Seq::<SyntaxNode>::empty()) =~= Seq::<NodeModel>::empty());
            assert(ctxm(Seq::<Vec<AstVal>>::empty()) =~= Seq::<Seq<ValModel>>::empty());
        }
        r
    }

    /// Replaces the head value.
    pub fn set_this(&mut self, this: AstVal)
        ensures
            final(self)@ == (NodeModel { this: this@, ..old(self)@ }),
    {
        self.this = this;
    }

    /// Appends one child.
    pub fn push_body(&mut self, next: SyntaxNode)
        ensures
            final(self)@ == (NodeModel { body: old(self)@.body.push(next@), ..old(self)@ }),
    {
        let ghost b0 = self.body@;
        self.body.push(next);
        proof {
            assert(self.body@.drop_last() =~= b0);
        }
    }

    /// Appends a string leaf child.
    pub fn push_string(&mut self, s: String)
        ensures
            final(self)@ == (NodeModel {
                body: old(self)@.body.push(leaf_node(ValModel::VStr(s@))),
                ..old(self)@
            }),
    {
        let n = SyntaxNode::new_leaf(AstVal::AstString(s));
        self.push_body(n);
    }

    /// Appends a string leaf child from a string slice.
    pub fn push_str(&mut self, s: &str)
        ensures
            final(self)@ == (NodeModel {
                body: old(self)@.body.push(leaf_node(ValModel::VStr(s@))),
                ..old(self)@
            }),
    {
        self.push_string(s.to_owned());
    }

    /// Appends one context scope.
    pub fn push_context_vec(&mut self, v: Vec<AstVal>)
        ensures
            final(self)@ == (NodeModel {
                context: old(self)@.context.push(vms(v@)),
                ..old(self)@
            }),
    {
        let ghost c0 = self.context@;
        self.context.push(v);
        proof {
            assert(self.context@.drop_last() =~= c0);
        }
    }

    /// Removes and returns the scope pushed last, if any.
    pub fn pop_context_vec(&mut self) -> (r: Option<Vec<AstVal>>)
        ensures
            old(self)@.context.len() == 0 ==> r is None && final(self)@ == old(self)@,
            old(self)@.context.len() > 0 ==> (r matches Some(v) && vms(v@)
                == old(self)@.context.last()) && final(self)@ == (NodeModel {
                context: old(self)@.context.drop_last(),
                ..old(self)@
            }),
    {
        let ghost c0 = self.context@;
        match self.context.pop() {
            Some(v) => {
                proof {
                    assert(c0 == self.context@.push(v));
                    assert(ctxm(c0) == ctxm(self.context@).push(vms(v@)));
                    assert(ctxm(self.context@) =~= ctxm(c0).drop_last());
                }
                Some(v)
            },
            None => {
                proof {
                    crate::canon::ctxm_len(c0);
                }
                None
            },
        }
    }

    /// Appends every scope of `v`, in order.
    pub fn merge_context_vec(&mut self, v: &Vec<Vec<AstVal>>)
        ensures
            final(self)@ == (NodeModel {
                context: old(self)@.context + ctxm(v@),
                ..old(self)@
            }),
    {
        let ghost c0 = self.context@;
        let mut i: usize = 0;
        while i < v.len()
            invariant
                i <= v@.len(),
                self.this == old(self).this,
                self.body == old(self).body,
                ctxm(self.context@) == ctxm(c0) + ctxm(v@).take(i as int),
                c0 == old(self).context@,
            decreases v@.len() - i,
        {
            let ghost cm = self.context@;
            let row = clone_vec(&v[i]);
            self.context.push(row);
            proof {
                assert(self.context@.drop_last() =~= cm);
                assert(ctxm(v@).take(i + 1) =~= ctxm(v@).take(i as int).push(ctxm(v@)[i as int]));
                assert((ctxm(c0) + ctxm(v@).take(i as int)).push(ctxm(v@)[i as int]) =~= ctxm(c0)
                    + ctxm(v@).take(i + 1));
            }
            i = i + 1;
        }
        proof {
            assert(ctxm(v@).take(v@.len() as int) =~= ctxm(v@));
        }
    }

    /// Appends every scope of `n`, in order.
    pub fn merge_context(&mut self, n: &SyntaxNode)
        ensures
            final(self)@ == (NodeModel {
                context: old(self)@.context + n@.context,
                ..old(self)@
            }),
    {
        self.merge_context_vec(&n.context);
    }

    /// Whether `a` equals, structurally, some value of some scope of this
    /// node's context.
    pub fn is_in_context(&self, a: &AstVal) -> (r: bool)
        ensures
            r == in_ctx(self@.context, a@),
    {
        let ghost ctx = ctxm(self.context@);
        let mut i: usize = 0;
        while i < self.context.len()
            invariant
                i <= self.context@.len(),
                ctx == ctxm(self.context@),
                ctx.len() == self.context@.len(),
                forall|p: int, q: int|
                    0 <= p < i && 0 <= q < ctx[p].len() ==> !veq(vm(*a), #[trigger] ctx[p][q]),
            decreases self.context@.len() - i,
        {
            let row = &self.context[i];
            let mut j: usize = 0;
            while j < row.len()
                invariant
                    i < self.context@.len(),
                    j <= row@.len(),
                    ctx == ctxm(self.context@),
                    ctx.len() == self.context@.len(),
                    row@ == self.context@[i as int]@,
                    ctx[i as int] == vms(row@),
                    ctx[i as int].len() == row@.len(),
                    forall|p: int, q: int|
                        0 <= p < i && 0 <= q < ctx[p].len() ==> !veq(vm(*a), #[trigger] ctx[p][q]),
                    forall|q: int| 0 <= q < j ==> !veq(vm(*a), #[trigger] ctx[i as int][q]),
                decreases row@.len() - j,
            {
                if val_eq(a, &row[j]) {
                    proof {
                        assert(veq(vm(*a), ctx[i as int][j as int]));
                        assert(in_ctx(ctx, vm(*a)));
                    }
                    return true;
                }
                j = j + 1;
            }
            i = i + 1;
        }
        proof {
            assert(!in_ctx(ctx, vm(*a)));
        }
        return false;
    }

    /// Copies every node's context scopes onto all of its descendants,
    /// once, building the disseminated tree.
    pub fn disseminate_context(&mut self)
        ensures
            final(self)@ == dissem(old(self)@, Seq::empty()),
    {
        let mut tmp = SyntaxNode::new();
        core::mem::swap(self, &mut tmp);
        let anc: Vec<Vec<AstVal>> = Vec::new();
        proof {
            assert(ctxm(anc@) =~= Seq::<Seq<ValModel>>::empty());
        }
        let r = dissem_node(&tmp, &anc);
        *self = r;
    }
}

/// Deep copy of one scope stack.
fn clone_ctx(v: &Vec<Vec<AstVal>>) -> (r: Vec<Vec<AstVal>>)
    ensures
        ctxm(r@) == ctxm(v@),
{
    let mut r: Vec<Vec<AstVal>> = Vec::new();
    let mut i: usize = 0;
    while i < v.len()
        invariant
            i <= v@.len(),
            r@.len() == i,
            ctxm(r@) == ctxm(v@).take(i as int),
        decreases v@.len() - i,
    {
        let ghost r0 = r@;
        r.push(clone_vec(&v[i]));
        proof {
            assert(r@.drop_last() =~= r0);
            assert(ctxm(v@).take(i + 1) =~= ctxm(v@).take(i as int).push(ctxm(v@)[i as int]));
        }
        i = i + 1;
    }
    proof {
        assert(ctxm(v@).take(v@.len() as int) =~= ctxm(v@));
    }
    r
}

/// Builds the disseminated copy of `n` with the ancestor scopes `anc`
/// appended to its own.
fn dissem_node(n: &SyntaxNode, anc: &Vec<Vec<AstVal>>) -> (r: SyntaxNode)
    ensures
        r@ == dissem(n@, ctxm(anc@)),
    decreases n,
{
    let mut mc = clone_ctx(&n.context);
    let mut k: usize = 0;
    while k < anc.len()
        invariant
            k <= anc@.len(),
            ctxm(mc@) == ctxm(n.context@) + ctxm(anc@).take(k as int),
        decreases anc@.len() - k,
    {
        let ghost m0 = mc@;
        mc.push(clone_vec(&anc[k]));
        proof {
            assert(mc@.drop_last() =~= m0);
            assert(ctxm(anc@).take(k + 1) =~= ctxm(anc@).take(k as int).push(
                ctxm(anc@)[k as int],
            ));
            assert((ctxm(n.context@) + ctxm(anc@).take(k as int)).push(ctxm(anc@)[k as int])
                =~= ctxm(n.context@) + ctxm(anc@).take(k + 1));
        }
        k = k + 1;
    }
    proof {
        assert(ctxm(anc@).take(anc@.len() as int) =~= ctxm(anc@));
    }
    let ghost merged = ctxm(n.context@) + ctxm(anc@);
    let mut body: Vec<SyntaxNode> = Vec::new();
    let mut i: usize = 0;
    while i < n.body.len()
        invariant
            i <= n.body@.len(),
            ctxm(mc@) == merged,
            merged == ctxm(n.context@) + ctxm(anc@),
            body@.len() == i,
            forall|m: int| 0 <= m < i ==> nm(#[trigger] body@[m]) == dissem(
                nm(n.body@[m]),
                merged,
            ),
        decreases n.body@.len() - i,
    {
        let child = dissem_node(&n.body[i], &mc);
        body.push(child);
        i = i + 1;
    }
    let this = clone_val(&n.this);
    let r = SyntaxNode { this, body, context: mc };
    proof {
        assert(nms(r.body@) =~= dissem_seq(nms(n.body@), merged));
    }
    r
}

/// Expands the elements of `v` from `start` on, appending each canonical
/// tree to `acc`; the first fatal condition wins.
fn expand_into(v: &Vec<AstVal>, start: usize, acc: &mut Vec<SyntaxNode>) -> (res: Option<ErrKind>)
    ensures
        expand_args(vms(v@), start as int) matches Ok(ns) ==> res is None && final(acc)@.len()
            >= old(acc)@.len() && final(acc)@.take(old(acc)@.len() as int) == old(acc)@ && ns
            == nms(final(acc)@.skip(old(acc)@.len() as int)),
        expand_args(vms(v@), start as int) matches Err(e) ==> res == Some(e),
    decreases v, 1int, v@.len() - start,
{
    let ghost a0 = acc@;
    let ghost ms = vms(v@);
    if start >= v.len() {
        proof {
            assert(acc@.take(a0.len() as int) =~= a0);
            assert(acc@.skip(a0.len() as int) =~= Seq::<SyntaxNode>::empty());
            assert(nms(Seq::<SyntaxNode>::empty()) =~= Seq::<NodeModel>::empty());
        }
        return None;
    }
    let el = &v[start];
    match dispatch_syntax(el) {
        Err(e) => {
            return Some(e);
        },
        Ok(n) => {
            acc.push(n);
            let ghost a1 = acc@;
            let res2 = expand_into(v, start + 1, acc);
            proof {
                if expand_args(ms, start as int) is Ok {
                    assert(acc@.take(a1.len() as int) == a1);
                    assert(acc@[a0.len() as int] == acc@.take(a1.len() as int)[a0.len() as int]);
                    assert(acc@.skip(a0.len() as int) =~= seq![acc@[a0.len() as int]] + acc@.skip(
                        a1.len() as int,
                    ));
                    assert(acc@.take(a0.len() as int) =~= a0);
                    assert(nms(acc@.skip(a0.len() as int)) =~= seq![nm(acc@[a0.len() as int])]
                        + nms(acc@.skip(a1.len() as int)));
                }
            }
            return res2;
        },
    }
}

/// Wraps one canonical tree in a `do` node.
fn do_wrap_exec(n: SyntaxNode) -> (r: SyntaxNode)
    ensures
        r@ == do_wrap(n@),
{
    let mut b: Vec<SyntaxNode> = Vec::new();
    b.push(n);
    let r = SyntaxNode {
        this: AstVal::AstSymbol("do".to_owned()),
        body: b,
        context: Vec::new(),
    };
    proof {
        assert(nms(r.body@) =~= seq![nm(r.body@[0])]);
        assert(ctxm(Seq::<Vec<AstVal>>::empty()) =~= Seq::<Seq<ValModel>>::empty());
    }
    r
}

/// The call rule: the head symbol becomes the head, every remaining
/// element is expanded as a child.
fn syntax_call(a: &AstVal) -> (res: Result<SyntaxNode, ErrKind>)
    requires
        head_symbol(a@) is Some,
    ensures
        head_symbol(a@) matches Some(s) ==> (match call_spec(a@->VList_0, s) {
            Ok(n) => res matches Ok(r) && r@ == n,
            Err(e) => res == Result::<SyntaxNode, ErrKind>::Err(e),
        }),
    decreases a, 2int, 0int,
{
    match a {
        AstVal::AstList(v) => {
            let h = &v[0];
            match h {
                AstVal::AstSymbol(s) => {
                    let mut acc: Vec<SyntaxNode> = Vec::new();
                    match expand_into(v, 1, &mut acc) {
                        Some(e) => {
                            return Err(e);
                        },
                        None => {
                            proof {
                                if expand_args(vms(v@), 1) is Ok {
                                    assert(acc@.skip(0) =~= acc@);
                                }
                            }
                            let r = SyntaxNode {
                                this: AstVal::AstSymbol(s.clone()),
                                body: acc,
                                context: Vec::new(),
                            };
                            proof {
                                assert(ctxm(r.context@) =~= Seq::<Seq<ValModel>>::empty());
                            }
                            return Ok(r);
                        },
                    }
                },
                _ => {
                    proof {
                        assert(false);
                    }
                    return Err(ErrKind::NotCallable);
                },
            }
        },
        _ => {
            proof {
                assert(false);
            }
            return Err(ErrKind::NotCallable);
        },
    }
}

/// The `if` rule: exactly three forms after the head, each expanded and
/// wrapped in its own `do` node.
fn syntax_if(a: &AstVal) -> (res: Result<SyntaxNode, ErrKind>)
    requires
        a@ is VList,
    ensures
        (match if_spec(a@->VList_0) {
            Ok(n) => res matches Ok(r) && r@ == n,
            Err(e) => res == Result::<SyntaxNode, ErrKind>::Err(e),
        }),
    decreases a, 2int, 0int,
{
    match a {
        AstVal::AstList(v) => {
            if v.len() != 4 {
                return Err(ErrKind::IfArity);
            }
            let mut acc: Vec<SyntaxNode> = Vec::new();
            match expand_into(v, 1, &mut acc) {
                Some(e) => {
                    return Err(e);
                },
                None => {
                    proof {
                        if expand_args(vms(v@), 1) is Ok {
                            crate::canon::lemma_expand_args_len(vms(v@), 1);
                            assert(acc@.skip(0) =~= acc@);
                        }
                    }
                    let n3 = match acc.pop() {
                        Some(x) => x,
                        None => {
                            proof {
                                assert(false);
                            }
                            SyntaxNode::new()
                        },
                    };
                    let n2 = match acc.pop() {
                        Some(x) => x,
                        None => {
                            proof {
                                assert(false);
                            }
                            SyntaxNode::new()
                        },
                    };
                    let n1 = match acc.pop() {
                        Some(x) => x,
                        None => {
                            proof {
                                assert(false);
                            }
                            SyntaxNode::new()
                        },
                    };
                    let mut body: Vec<SyntaxNode> = Vec::new();
                    body.push(do_wrap_exec(n1));
                    body.push(do_wrap_exec(n2));
                    body.push(do_wrap_exec(n3));
                    let r = SyntaxNode {
                        this: AstVal::AstSymbol("if".to_owned()),
                        body,
                        context: Vec::new(),
                    };
                    proof {
                        let ns = expand_args(vms(v@), 1)->Ok_0;
                        assert(nms(r.body@) =~= seq![
                            do_wrap(ns[0]),
                            do_wrap(ns[1]),
                            do_wrap(ns[2]),
                        ]);
                        assert(ctxm(r.context@) =~= Seq::<Seq<ValModel>>::empty());
                    }
                    return Ok(r);
                },
            }
        },
        _ => {
            proof {
                assert(false);
            }
            return Err(ErrKind::IfArity);
        },
    }
}

/// The `=` rule: exactly two operands, both expanded as children.
fn syntax_equal(a: &AstVal) -> (res: Result<SyntaxNode, ErrKind>)
    requires
        a@ is VList,
    ensures
        (match equal_spec(a@->VList_0) {
            Ok(n) => res matches Ok(r) && r@ == n,
            Err(e) => res == Result::<SyntaxNode, ErrKind>::Err(e),
        }),
    decreases a, 2int, 0int,
{
    match a {
        AstVal::AstList(v) => {
            if v.len() != 3 {
                return Err(ErrKind::EqualArity);
            }
            let mut acc: Vec<SyntaxNode> = Vec::new();
            match expand_into(v, 1, &mut acc) {
                Some(e) => {
                    return Err(e);
                },
                None => {
                    proof {
                        if expand_args(vms(v@), 1) is Ok {
                            assert(acc@.skip(0) =~= acc@);
                        }
                    }
                    let r = SyntaxNode {
                        this: AstVal::AstSymbol("=".to_owned()),
                        body: acc,
                        context: Vec::new(),
                    };
                    proof {
                        assert(ctxm(r.context@) =~= Seq::<Seq<ValModel>>::empty());
                    }
                    return Ok(r);
                },
            }
        },
        _ => {
            proof {
                assert(false);
            }
            return Err(ErrKind::EqualArity);
        },
    }
}

/// One `let` pair node per binding, appended to `acc`: the binding
/// symbol as a leaf, the expanded value expression beside it.
fn let_pairs_into(b: &Vec<AstVal>, k: usize, acc: &mut Vec<SyntaxNode>) -> (res: Option<ErrKind>)
    requires
        2 * k <= usize::MAX,
    ensures
        let_pairs_spec(vms(b@), k as int) matches Ok(ns) ==> res is None && final(acc)@.len()
            >= old(acc)@.len() && final(acc)@.take(old(acc)@.len() as int) == old(acc)@ && ns
            == nms(final(acc)@.skip(old(acc)@.len() as int)),
        let_pairs_spec(vms(b@), k as int) matches Err(e) ==> res == Some(e),
    decreases b, 1int, b@.len() - 2 * k,
{
    let ghost a0 = acc@;
    let ghost ms = vms(b@);
    if k > b.len() || 2 * k + 1 >= b.len() || b.len() == 0 {
        proof {
            assert(acc@.take(a0.len() as int) =~= a0);
            assert(acc@.skip(a0.len() as int) =~= Seq::<SyntaxNode>::empty());
            assert(nms(Seq::<SyntaxNode>::empty()) =~= Seq::<NodeModel>::empty());
        }
        return None;
    }
    let sym = &b[2 * k];
    let is_sym = match sym {
        AstVal::AstSymbol(_) => true,
        _ => false,
    };
    if !is_sym {
        return Some(ErrKind::NonSymbolBinding);
    }
    let val = &b[2 * k + 1];
    match dispatch_syntax(val) {
        Err(e) => {
            return Some(e);
        },
        Ok(n) => {
            let leaf = SyntaxNode::new_leaf(clone_val(sym));
            let mut pb: Vec<SyntaxNode> = Vec::new();
            pb.push(leaf);
            pb.push(n);
            let pair = SyntaxNode {
                this: AstVal::AstSymbol("let".to_owned()),
                body: pb,
                context: Vec::new(),
            };
            proof {
                assert(nms(pair.body@) =~= seq![nm(pair.body@[0]), nm(pair.body@[1])]);
                assert(ctxm(pair.context@) =~= Seq::<Seq<ValModel>>::empty());
            }
            acc.push(pair);
            let ghost a1 = acc@;
            let res2 = let_pairs_into(b, k + 1, acc);
            proof {
                if let_pairs_spec(ms, k as int) is Ok {
                    assert(acc@.take(a1.len() as int) == a1);
                    assert(acc@[a0.len() as int] == acc@.take(a1.len() as int)[a0.len() as int]);
                    assert(acc@.skip(a0.len() as int) =~= seq![acc@[a0.len() as int]] + acc@.skip(
                        a1.len() as int,
                    ));
                    assert(acc@.take(a0.len() as int) =~= a0);
                    assert(nms(acc@.skip(a0.len() as int)) =~= seq![nm(acc@[a0.len() as int])]
                        + nms(acc@.skip(a1.len() as int)));
                }
            }
            return res2;
        },
    }
}

/// The binding targets of a binding vector, cloned in order.
fn bind_syms_vec(b: &Vec<AstVal>) -> (r: Vec<AstVal>)
    ensures
        vms(r@) == bind_syms(vms(b@)),
{
    let ghost ms = vms(b@);
    let mut r: Vec<AstVal> = Vec::new();
    let mut k: usize = 0;
    let n = b.len() / 2;
    while k < n
        invariant
            k <= n,
            n == b@.len() / 2,
            b@.len() <= usize::MAX,
            ms == vms(b@),
            ms.len() == b@.len(),
            r@.len() == k,
            forall|m: int| 0 <= m < k ==> vm(#[trigger] r@[m]) == ms[2 * m],
        decreases n - k,
    {
        proof {
            assert(2 * k < b@.len());
        }
        r.push(clone_val(&b[2 * k]));
        k = k + 1;
    }
    proof {
        assert(vms(r@) =~= bind_syms(ms));
    }
    r
}

/// The `let` rule: an even binding vector of symbol/value pairs, one
/// context scope with every binding target, then the expanded body forms.
fn syntax_let(a: &AstVal) -> (res: Result<SyntaxNode, ErrKind>)
    requires
        a@ is VList,
    ensures
        (match let_spec(a@->VList_0) {
            Ok(n) => res matches Ok(r) && r@ == n,
            Err(e) => res == Result::<SyntaxNode, ErrKind>::Err(e),
        }),
    decreases a, 2int, 0int,
{
    match a {
        AstVal::AstList(v) => {
            if v.len() < 2 {
                return Err(ErrKind::LetArity);
            }
            let bref = &v[1];
            match bref {
                AstVal::AstVec(b) => {
                    if b.len() % 2 != 0 {
                        return Err(ErrKind::LetBindingVector);
                    }
                    let mut acc: Vec<SyntaxNode> = Vec::new();
                    match let_pairs_into(b, 0, &mut acc) {
                        Some(e) => {
                            return Err(e);
                        },
                        None => {
                            let ghost pn = acc@;
                            match expand_into(v, 2, &mut acc) {
                                Some(e) => {
                                    return Err(e);
                                },
                                None => {
                                    proof {
                                        if let_pairs_spec(vms(b@), 0) is Ok && expand_args(
                                            vms(v@),
                                            2,
                                        ) is Ok {
                                            assert(pn.skip(0) =~= pn);
                                            assert(acc@.take(pn.len() as int) == pn);
                                            assert(acc@ =~= pn + acc@.skip(pn.len() as int));
                                            assert(nms(acc@) =~= nms(pn) + nms(acc@.skip(
                                                pn.len() as int,
                                            )));
                                        }
                                    }
                                    let ctx = bind_syms_vec(b);
                                    let mut cv: Vec<Vec<AstVal>> = Vec::new();
                                    cv.push(ctx);
                                    let r = SyntaxNode {
                                        this: AstVal::AstSymbol("do".to_owned()),
                                        body: acc,
                                        context: cv,
                                    };
                                    proof {
                                        assert(ctxm(r.context@) =~= seq![vms(r.context@[0]@)]);
                                    }
                                    return Ok(r);
                                },
                            }
                        },
                    }
                },
                _ => {
                    return Err(ErrKind::LetBindingVector);
                },
            }
        },
        _ => {
            proof {
                assert(false);
            }
            return Err(ErrKind::LetArity);
        },
    }
}

/// One string leaf per parameter symbol, appended to `acc`.
fn param_leaves_into(ps: &Vec<AstVal>, i: usize, acc: &mut Vec<SyntaxNode>) -> (res: Option<
    ErrKind,
>)
    ensures
        param_leaves_spec(vms(ps@), i as int) matches Ok(ns) ==> res is None && final(acc)@.len()
            >= old(acc)@.len() && final(acc)@.take(old(acc)@.len() as int) == old(acc)@ && ns
            == nms(final(acc)@.skip(old(acc)@.len() as int)),
        param_leaves_spec(vms(ps@), i as int) matches Err(e) ==> res == Some(e),
    decreases ps@.len() - i,
{
    let ghost a0 = acc@;
    let ghost ms = vms(ps@);
    if i >= ps.len() {
        proof {
            assert(acc@.take(a0.len() as int) =~= a0);
            assert(acc@.skip(a0.len() as int) =~= Seq::<SyntaxNode>::empty());
            assert(nms(Seq::<SyntaxNode>::empty()) =~= Seq::<NodeModel>::empty());
        }
        return None;
    }
    let el = &ps[i];
    match el {
        AstVal::AstSymbol(t) => {
            let leaf = SyntaxNode::new_leaf(AstVal::AstString(t.clone()));
            acc.push(leaf);
            let ghost a1 = acc@;
            let res2 = param_leaves_into(ps, i + 1, acc);
            proof {
                if param_leaves_spec(ms, i as int) is Ok {
                    assert(acc@.take(a1.len() as int) == a1);
                    assert(acc@[a0.len() as int] == acc@.take(a1.len() as int)[a0.len() as int]);
                    assert(acc@.skip(a0.len() as int) =~= seq![acc@[a0.len() as int]] + acc@.skip(
                        a1.len() as int,
                    ));
                    assert(acc@.take(a0.len() as int) =~= a0);
                    assert(nms(acc@.skip(a0.len() as int)) =~= seq![nm(acc@[a0.len() as int])]
                        + nms(acc@.skip(a1.len() as int)));
                }
            }
            return res2;
        },
        _ => {
            return Some(ErrKind::NonSymbolParameter);
        },
    }
}

/// The `defn` rule: a symbol name, a parameter vector or nil, at least
/// one body form; the parameters become one context scope.
fn syntax_defn(a: &AstVal) -> (res: Result<SyntaxNode, ErrKind>)
    requires
        a@ is VList,
    ensures
        (match defn_spec(a@->VList_0) {
            Ok(n) => res matches Ok(r) && r@ == n,
            Err(e) => res == Result::<SyntaxNode, ErrKind>::Err(e),
        }),
    decreases a, 2int, 0int,
{
    match a {
        AstVal::AstList(v) => {
            if v.len() <= 3 {
                return Err(ErrKind::DefnArity);
            }
            let nref = &v[1];
            let name: String = match nref {
                AstVal::AstSymbol(s) => s.clone(),
                _ => {
                    return Err(ErrKind::NonSymbolName);
                },
            };
            let mut name_body: Vec<SyntaxNode> = Vec::new();
            name_body.push(SyntaxNode::new_leaf(AstVal::AstString(name)));
            let name_node = SyntaxNode {
                this: AstVal::AstSymbol("name".to_owned()),
                body: name_body,
                context: Vec::new(),
            };
            proof {
                assert(nms(name_node.body@) =~= seq![nm(name_node.body@[0])]);
                assert(ctxm(name_node.context@) =~= Seq::<Seq<ValModel>>::empty());
            }
            let pref = &v[2];
            match pref {
                AstVal::AstVec(ps) => {
                    let mut leaves: Vec<SyntaxNode> = Vec::new();
                    match param_leaves_into(ps, 0, &mut leaves) {
                        Some(e) => {
                            return Err(e);
                        },
                        None => {
                            proof {
                                if param_leaves_spec(vms(ps@), 0) is Ok {
                                    assert(leaves@.skip(0) =~= leaves@);
                                }
                            }
                            let params_node = SyntaxNode {
                                this: AstVal::AstSymbol("parameters".to_owned()),
                                body: leaves,
                                context: Vec::new(),
                            };
                            proof {
                                assert(ctxm(params_node.context@) =~= Seq::<Seq<ValModel>>::empty());
                            }
                            let mut bodies: Vec<SyntaxNode> = Vec::new();
                            match expand_into(v, 3, &mut bodies) {
                                Some(e) => {
                                    return Err(e);
                                },
                                None => {
                                    proof {
                                        if expand_args(vms(v@), 3) is Ok {
                                            assert(bodies@.skip(0) =~= bodies@);
                                        }
                                    }
                                    let do_node = SyntaxNode {
                                        this: AstVal::AstSymbol("do".to_owned()),
                                        body: bodies,
                                        context: Vec::new(),
                                    };
                                    proof {
                                        assert(ctxm(do_node.context@)
                                            =~= Seq::<Seq<ValModel>>::empty());
                                    }
                                    let ctx = clone_vec(ps);
                                    let mut cv: Vec<Vec<AstVal>> = Vec::new();
                                    cv.push(ctx);
                                    let mut body: Vec<SyntaxNode> = Vec::new();
                                    body.push(name_node);
                                    body.push(params_node);
                                    body.push(do_node);
                                    let r = SyntaxNode {
                                        this: AstVal::AstSymbol("fn".to_owned()),
                                        body,
                                        context: cv,
                                    };
                                    proof {
                                        assert(nms(r.body@) =~= seq![
                                            nm(r.body@[0]),
                                            nm(r.body@[1]),
                                            nm(r.body@[2]),
                                        ]);
                                        assert(ctxm(r.context@) =~= seq![vms(r.context@[0]@)]);
                                    }
                                    return Ok(r);
                                },
                            }
                        },
                    }
                },
                AstVal::AstNil => {
                    let params_node = SyntaxNode {
                        this: AstVal::AstSymbol("parameters".to_owned()),
                        body: Vec::new(),
                        context: Vec::new(),
                    };
                    proof {
                        assert(nms(params_node.body@) =~= Seq::<NodeModel>::empty());
                        assert(ctxm(params_node.context@) =~= Seq::<Seq<ValModel>>::empty());
                    }
                    let mut bodies: Vec<SyntaxNode> = Vec::new();
                    match expand_into(v, 3, &mut bodies) {
                        Some(e) => {
                            return Err(e);
                        },
                        None => {
                            proof {
                                if expand_args(vms(v@), 3) is Ok {
                                    assert(bodies@.skip(0) =~= bodies@);
                                }
                            }
                            let do_node = SyntaxNode {
                                this: AstVal::AstSymbol("do".to_owned()),
                                body: bodies,
                                context: Vec::new(),
                            };
                            proof {
                                assert(ctxm(do_node.context@) =~= Seq::<Seq<ValModel>>::empty());
                            }
                            let mut body: Vec<SyntaxNode> = Vec::new();
                            body.push(name_node);
                            body.push(params_node);
                            body.push(do_node);
                            let r = SyntaxNode {
                                this: AstVal::AstSymbol("fn".to_owned()),
                                body,
                                context: Vec::new(),
                            };
                            proof {
                                assert(nms(r.body@) =~= seq![
                                    nm(r.body@[0]),
                                    nm(r.body@[1]),
                                    nm(r.body@[2]),
                                ]);
                                assert(ctxm(r.context@) =~= Seq::<Seq<ValModel>>::empty());
                            }
                            return Ok(r);
                        },
                    }
                },
                _ => {
                    return Err(ErrKind::BadParameterList);
                },
            }
        },
        _ => {
            proof {
                assert(false);
            }
            return Err(ErrKind::DefnArity);
        },
    }
}

/// Rewrites one form by its head: the known form symbols follow their
/// rules, any other symbol head is a call, a list without a symbol head
/// is fatal, and every other value becomes a leaf node.
fn dispatch_syntax(c: &AstVal) -> (res: Result<SyntaxNode, ErrKind>)
    ensures
        (match dispatch_spec(c@) {
            Ok(n) => res matches Ok(r) && r@ == n,
            Err(e) => res == Result::<SyntaxNode, ErrKind>::Err(e),
        }),
    decreases c, 3int, 0int,
{
    match c.list_type() {
        Some(s) => {
            let defn_s: String = "defn".to_owned();
            if s == defn_s {
                return syntax_defn(c);
            }
            let if_s: String = "if".to_owned();
            if s == if_s {
                return syntax_if(c);
            }
            let let_s: String = "let".to_owned();
            if s == let_s {
                return syntax_let(c);
            }
            let eq_s: String = "=".to_owned();
            if s == eq_s {
                return syntax_equal(c);
            }
            return syntax_call(c);
        },
        None => {
            if c.is_list() {
                return Err(ErrKind::NotCallable);
            }
            let r = SyntaxNode::new_leaf(clone_val(c));
            return Ok(r);
        },
    }
}

/// Rewrites one top-level form into its canonical tree and disseminates
/// every node's context scopes to its descendants.
pub fn syntax(c: &AstVal) -> (res: Result<SyntaxNode, ErrKind>)
    ensures
        (match syntax_spec(c@) {
            Ok(n) => res matches Ok(r) && r@ == n,
            Err(e) => res == Result::<SyntaxNode, ErrKind>::Err(e),
        }),
{
    match dispatch_syntax(c) {
        Err(e) => {
            return Err(e);
        },
        Ok(mut z) => {
            z.disseminate_context();
            return Ok(z);
        },
    }
}

} // verus!
