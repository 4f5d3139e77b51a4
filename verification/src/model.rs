//! The mathematical model of values.
//!
//! Contracts speak of values through this model: character data as
//! `Seq<char>`, collections as sequences of models.
use vstd::prelude::*;

verus! {

use crate::ast::AstVal;
use crate::num::i32_dec;

/// The mathematical model of an [`AstVal`].
pub enum ValModel {
    VNil,
    VBool(bool),
    VInt(i32),
    VFloat(Seq<char>),
    VStr(Seq<char>),
    VSym(Seq<char>),
    VKey(Seq<char>),
    VVec(Seq<ValModel>),
    VList(Seq<ValModel>),
    VMap(Seq<(ValModel, ValModel)>),
    VMeta(Seq<(ValModel, ValModel)>),
    VComment(Seq<char>),
}

/// The model of each element of `s`.
pub open spec fn vms(s: Seq<AstVal>) -> Seq<ValModel>
    decreases s,
{
    if s.len() == 0 {
        Seq::empty()
    } else {
        vms(s.drop_last()).push(vm(s.last()))
    }
}

/// The model of each pair of `s`.
pub open spec fn vmp(s: Seq<(AstVal, AstVal)>) -> Seq<(ValModel, ValModel)>
    decreases s,
{
    if s.len() == 0 {
        Seq::empty()
    } else {
        vmp(s.drop_last()).push((vm(s.last().0), vm(s.last().1)))
    }
}

/// [`vms`] keeps the length.
pub broadcast proof fn vms_len(s: Seq<AstVal>)
    ensures
        #[trigger] vms(s).len() == s.len(),
    decreases s.len(),
{
    if s.len() > 0 {
        vms_len(s.drop_last());
    }
}

/// [`vms`] maps each element to its model.
pub broadcast proof fn vms_index(s: Seq<AstVal>, i: int)
    requires
        0 <= i < s.len(),
    ensures
        #[trigger] vms(s)[i] == vm(s[i]),
    decreases s.len(),
{
    vms_len(s.drop_last());
    if i < s.len() - 1 {
        vms_index(s.drop_last(), i);
    }
}

/// [`vmp`] keeps the length.
pub broadcast proof fn vmp_len(s: Seq<(AstVal, AstVal)>)
    ensures
        #[trigger] vmp(s).len() == s.len(),
    decreases s.len(),
{
    if s.len() > 0 {
        vmp_len(s.drop_last());
    }
}

/// [`vmp`] maps each pair to its models.
pub broadcast proof fn vmp_index(s: Seq<(AstVal, AstVal)>, i: int)
    requires
        0 <= i < s.len(),
    ensures
        #[trigger] vmp(s)[i] == (vm(s[i].0), vm(s[i].1)),
    decreases s.len(),
{
    vmp_len(s.drop_last());
    if i < s.len() - 1 {
        vmp_index(s.drop_last(), i);
    }
}

/// The model of `a`.
pub open spec fn vm(a: AstVal) -> ValModel
    decreases a,
{
    match a {
        AstVal::AstNil => ValModel::VNil,
        AstVal::AstBool(b) => ValModel::VBool(b),
        AstVal::AstInt(i) => ValModel::VInt(i),
        AstVal::AstFloat(s) => ValModel::VFloat(s@),
        AstVal::AstString(s) => ValModel::VStr(s@),
        AstVal::AstSymbol(s) => ValModel::VSym(s@),
        AstVal::AstKeyword(s) => ValModel::VKey(s@),
        AstVal::AstVec(v) => ValModel::VVec(vms(v@)),
        AstVal::AstList(v) => ValModel::VList(vms(v@)),
        AstVal::AstMap(v) => ValModel::VMap(vmp(v@)),
        AstVal::AstMeta(v) => ValModel::VMeta(vmp(v@)),
        AstVal::AstCommentLine(s) => ValModel::VComment(s@),
    }
}

impl View for AstVal {
    type V = ValModel;

    open spec fn view(&self) -> ValModel {
        vm(*self)
    }
}

/// Structural equality of values: nil equals itself and any empty list,
/// vector, map or meta; booleans, integers, floats, strings and symbols
/// compare by value; every other pair is unequal.
pub open spec fn veq(a: ValModel, b: ValModel) -> bool {
    match a {
        ValModel::VNil => match b {
            ValModel::VNil => true,
            ValModel::VList(v) => v.len() == 0,
            ValModel::VVec(v) => v.len() == 0,
            ValModel::VMap(v) => v.len() == 0,
            ValModel::VMeta(v) => v.len() == 0,
            _ => false,
        },
        ValModel::VList(v) => b is VNil && v.len() == 0,
        ValModel::VVec(v) => b is VNil && v.len() == 0,
        ValModel::VMap(v) => b is VNil && v.len() == 0,
        ValModel::VMeta(v) => b is VNil && v.len() == 0,
        ValModel::VStr(s1) => b matches ValModel::VStr(s2) && s1 == s2,
        ValModel::VSym(s1) => b matches ValModel::VSym(s2) && s1 == s2,
        ValModel::VBool(b1) => b matches ValModel::VBool(b2) && b1 == b2,
        ValModel::VInt(i1) => b matches ValModel::VInt(i2) && i1 == i2,
        ValModel::VFloat(f1) => b matches ValModel::VFloat(f2) && f1 == f2,
        _ => false,
    }
}

/// One element of a leaf list: a non-list, or a non-empty list headed by
/// the symbol `'`.
pub open spec fn leaf_elem(m: ValModel) -> bool {
    match m {
        ValModel::VList(v1) => v1.len() != 0 && veq(ValModel::VSym("'"@), v1[0]),
        _ => true,
    }
}

/// `m` is a list whose elements are all leaf elements.
pub open spec fn leaf_list(m: ValModel) -> bool {
    match m {
        ValModel::VList(v) => forall|i: int| 0 <= i < v.len() ==> leaf_elem(#[trigger] v[i]),
        _ => false,
    }
}

/// A list with one non-leaf element is no leaf list.
pub proof fn lemma_not_leaf_list(m: ValModel, es: Seq<ValModel>, i: int)
    requires
        m == ValModel::VList(es),
        0 <= i < es.len(),
        !leaf_elem(es[i]),
    ensures
        !leaf_list(m),
{
    assert(m->VList_0 == es);
    assert(leaf_list(m) ==> leaf_elem(m->VList_0[i]));
}

/// The display text of an atom, when it has one: booleans as `true` or
/// `false`, integers in decimal, the others their character data.
pub open spec fn text_model(m: ValModel) -> Option<Seq<char>> {
    match m {
        ValModel::VBool(b) => Some(if b {
            "true"@
        } else {
            "false"@
        }),
        ValModel::VInt(i) => Some(i32_dec(i as int)),
        ValModel::VFloat(s) => Some(s),
        ValModel::VStr(s) => Some(s),
        ValModel::VSym(s) => Some(s),
        ValModel::VKey(s) => Some(s),
        ValModel::VComment(s) => Some(s),
        _ => None,
    }
}

/// The symbol text at the head of a list, when there is one.
pub open spec fn head_symbol(m: ValModel) -> Option<Seq<char>> {
    match m {
        ValModel::VList(es) => if es.len() > 0 {
            match es[0] {
                ValModel::VSym(s) => Some(s),
                _ => None,
            }
        } else {
            None
        },
        _ => None,
    }
}

} // verus!
