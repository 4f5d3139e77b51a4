//! The shared tagged-union value type: parser output and intermediate
//! representation at once.
//!
//! The mathematical model of a value is [`ValModel`], reached through `@`:
//! character data becomes `Seq<char>` and collections become sequences of
//! models. A float literal is carried as its own source text, so its model
//! is the token's character sequence.
use vstd::prelude::*;

verus! {

use crate::model::{
    head_symbol, leaf_elem, leaf_list, text_model, veq, vm, vmp, vms, ValModel,
};
use crate::num::i32_dec_chars;
use crate::strutil::string_of;

broadcast use crate::model::vms_len, crate::model::vms_index, crate::model::vmp_len,
    crate::model::vmp_index;

/// The tagged-union value: atoms, symbols, keywords, collections, metadata
/// and first-class comment lines.
#[derive(Debug)]
pub enum AstVal {
    AstNil,
    AstBool(bool),
    AstInt(i32),
    /// A float literal, carried as its source token text.
    AstFloat(String),
    AstString(String),
    AstSymbol(String),
    AstKeyword(String),
    AstVec(Vec<AstVal>),
    AstList(Vec<AstVal>),
    AstMap(Vec<(AstVal, AstVal)>),
    AstMeta(Vec<(AstVal, AstVal)>),
    AstCommentLine(String),
}

/// Decides [`veq`] on two values.
pub fn val_eq(a: &AstVal, b: &AstVal) -> (r: bool)
    ensures
        r == veq(a@, b@),
{
    match a {
        AstVal::AstNil => match b {
            AstVal::AstNil => return true,
            AstVal::AstList(v) => return v.len() == 0,
            AstVal::AstVec(v) => return v.len() == 0,
            AstVal::AstMap(v) => return v.len() == 0,
            AstVal::AstMeta(v) => return v.len() == 0,
            _ => return false,
        },
        AstVal::AstList(v) => match b {
            AstVal::AstNil => return v.len() == 0,
            _ => return false,
        },
        AstVal::AstVec(v) => match b {
            AstVal::AstNil => return v.len() == 0,
            _ => return false,
        },
        AstVal::AstMap(v) => match b {
            AstVal::AstNil => return v.len() == 0,
            _ => return false,
        },
        AstVal::AstMeta(v) => match b {
            AstVal::AstNil => return v.len() == 0,
            _ => return false,
        },
        AstVal::AstString(s1) => match b {
            AstVal::AstString(s2) => return *s1 == *s2,
            _ => return false,
        },
        AstVal::AstSymbol(s1) => match b {
            AstVal::AstSymbol(s2) => return *s1 == *s2,
            _ => return false,
        },
        AstVal::AstBool(b1) => match b {
            AstVal::AstBool(b2) => return b1 == b2,
            _ => return false,
        },
        AstVal::AstInt(i1) => match b {
            AstVal::AstInt(i2) => return i1 == i2,
            _ => return false,
        },
        AstVal::AstFloat(f1) => match b {
            AstVal::AstFloat(f2) => return *f1 == *f2,
            _ => return false,
        },
        _ => return false,
    }
}

/// A deep copy of each element of `v`.
pub(crate) fn clone_vec(v: &Vec<AstVal>) -> (r: Vec<AstVal>)
    ensures
        vms(r@) == vms(v@),
        r@.len() == v@.len(),
    decreases v,
{
    let mut r: Vec<AstVal> = Vec::new();
    let mut i: usize = 0;
    while i < v.len()
        invariant
            i <= v.len(),
            r@.len() == i,
            forall|m: int| 0 <= m < i ==> vm(#[trigger] r@[m]) == vm(v@[m]),
        decreases v.len() - i,
    {
        r.push(clone_val(&v[i]));
        i = i + 1;
    }
    proof {
        assert(vms(r@) =~= vms(v@));
    }
    r
}

/// A deep copy of each pair of `v`.
fn clone_pairs(v: &Vec<(AstVal, AstVal)>) -> (r: Vec<(AstVal, AstVal)>)
    ensures
        vmp(r@) == vmp(v@),
        r@.len() == v@.len(),
    decreases v,
{
    let mut r: Vec<(AstVal, AstVal)> = Vec::new();
    let mut i: usize = 0;
    while i < v.len()
        invariant
            i <= v.len(),
            r@.len() == i,
            forall|m: int| 0 <= m < i ==> vm(#[trigger] r@[m].0) == vm(v@[m].0) && vm(r@[m].1)
                == vm(v@[m].1),
        decreases v.len() - i,
    {
        let kv = &v[i];
        let k = clone_val(&kv.0);
        let val = clone_val(&kv.1);
        r.push((k, val));
        i = i + 1;
    }
    proof {
        assert(vmp(r@) =~= vmp(v@));
    }
    r
}

/// A deep copy of `a`, equal to it in model.
pub fn clone_val(a: &AstVal) -> (r: AstVal)
    ensures
        r@ == a@,
    decreases a,
{
    match a {
        AstVal::AstNil => return AstVal::AstNil,
        AstVal::AstBool(b) => return AstVal::AstBool(*b),
        AstVal::AstInt(i) => return AstVal::AstInt(*i),
        AstVal::AstFloat(s) => return AstVal::AstFloat(s.clone()),
        AstVal::AstString(s) => return AstVal::AstString(s.clone()),
        AstVal::AstSymbol(s) => return AstVal::AstSymbol(s.clone()),
        AstVal::AstKeyword(s) => return AstVal::AstKeyword(s.clone()),
        AstVal::AstVec(v) => return AstVal::AstVec(clone_vec(v)),
        AstVal::AstList(v) => return AstVal::AstList(clone_vec(v)),
        AstVal::AstMap(v) => return AstVal::AstMap(clone_pairs(v)),
        AstVal::AstMeta(v) => return AstVal::AstMeta(clone_pairs(v)),
        AstVal::AstCommentLine(s) => return AstVal::AstCommentLine(s.clone()),
    }
}

impl Clone for AstVal {
    /// A deep copy, equal in model to the value cloned.
    fn clone(&self) -> (r: Self)
        ensures
            r@ == self@,
    {
        clone_val(self)
    }
}

impl AstVal {
    /// An empty list.
    pub fn new_list() -> (r: AstVal)
        ensures
            r@ == ValModel::VList(Seq::<ValModel>::empty()),
    {
        let r = AstVal::AstList(Vec::new());
        proof {
            assert(vms(Seq::<AstVal>::empty()) =~= Seq::<ValModel>::empty());
        }
        r
    }

    /// An empty map.
    pub fn new_map() -> (r: AstVal)
        ensures
            r@ == ValModel::VMap(Seq::<(ValModel, ValModel)>::empty()),
    {
        let r = AstVal::AstMap(Vec::new());
        proof {
            assert(vmp(Seq::<(AstVal, AstVal)>::empty()) =~= Seq::<(ValModel, ValModel)>::empty());
        }
        r
    }

    /// An empty vector.
    pub fn new_vec() -> (r: AstVal)
        ensures
            r@ == ValModel::VVec(Seq::<ValModel>::empty()),
    {
        let r = AstVal::AstVec(Vec::new());
        proof {
            assert(vms(Seq::<AstVal>::empty()) =~= Seq::<ValModel>::empty());
        }
        r
    }

    /// An empty meta.
    pub fn new_meta() -> (r: AstVal)
        ensures
            r@ == ValModel::VMeta(Seq::<(ValModel, ValModel)>::empty()),
    {
        let r = AstVal::AstMeta(Vec::new());
        proof {
            assert(vmp(Seq::<(AstVal, AstVal)>::empty()) =~= Seq::<(ValModel, ValModel)>::empty());
        }
        r
    }

    /// The head symbol's text when this is a non-empty list headed by a
    /// symbol; `None` otherwise.
    pub fn list_type(&self) -> (r: Option<String>)
        ensures
            r is Some == head_symbol(self@) is Some,
            r matches Some(t) ==> head_symbol(self@) == Some(t@),
    {
        match self {
            AstVal::AstList(v) => {
                if v.len() > 0 {
                    let h = &v[0];
                    match h {
                        AstVal::AstSymbol(s) => {
                            proof {
                                assert(vms(v@)[0] == vm(v@[0]));
                            }
                            return Some(s.clone());
                        },
                        _ => return None,
                    }
                } else {
                    return None;
                }
            },
            _ => return None,
        }
    }

    /// Reinterprets a map structurally as metadata.
    pub fn map_to_meta(self) -> (r: AstVal)
        requires
            self@ is VMap,
        ensures
            r@ == ValModel::VMeta(self@->VMap_0),
    {
        match self {
            AstVal::AstMap(v) => return AstVal::AstMeta(v),
            _ => {
                proof {
                    assert(false);
                }
                return AstVal::AstNil;
            },
        }
    }

    /// Appends one key/value entry to a map or meta.
    pub fn insert(&mut self, k: AstVal, v: AstVal)
        requires
            old(self)@ is VMap || old(self)@ is VMeta,
        ensures
            old(self)@ matches ValModel::VMap(es) ==> final(self)@ == ValModel::VMap(
                es.push((k@, v@)),
            ),
            old(self)@ matches ValModel::VMeta(es) ==> final(self)@ == ValModel::VMeta(
                es.push((k@, v@)),
            ),
    {
        let mut tmp = AstVal::AstNil;
        core::mem::swap(self, &mut tmp);
        match tmp {
            AstVal::AstMap(mut v1) => {
                let ghost es0 = v1@;
                v1.push((k, v));
                proof {
                    assert(old(self)@ == ValModel::VMap(vmp(es0)));
                    assert(v1@.drop_last() =~= es0);
                    assert(vmp(v1@) == vmp(es0).push((vm(k), vm(v))));
                }
                *self = AstVal::AstMap(v1);
                return ;
            },
            AstVal::AstMeta(mut v1) => {
                let ghost es0 = v1@;
                v1.push((k, v));
                proof {
                    assert(old(self)@ == ValModel::VMeta(vmp(es0)));
                    assert(v1@.drop_last() =~= es0);
                    assert(vmp(v1@) == vmp(es0).push((vm(k), vm(v))));
                }
                *self = AstVal::AstMeta(v1);
                return ;
            },
            _ => {
                proof {
                    assert(false);
                }
            },
        }
    }

    /// Appends one element to a vector or list.
    pub fn push(&mut self, x: AstVal)
        requires
            old(self)@ is VVec || old(self)@ is VList,
        ensures
            old(self)@ matches ValModel::VVec(es) ==> final(self)@ == ValModel::VVec(
                es.push(x@),
            ),
            old(self)@ matches ValModel::VList(es) ==> final(self)@ == ValModel::VList(
                es.push(x@),
            ),
    {
        let mut tmp = AstVal::AstNil;
        core::mem::swap(self, &mut tmp);
        match tmp {
            AstVal::AstVec(mut v1) => {
                let ghost es0 = v1@;
                v1.push(x);
                proof {
                    assert(old(self)@ == ValModel::VVec(vms(es0)));
                    assert(v1@.drop_last() =~= es0);
                    assert(vms(v1@) == vms(es0).push(vm(x)));
                }
                *self = AstVal::AstVec(v1);
                return ;
            },
            AstVal::AstList(mut v1) => {
                let ghost es0 = v1@;
                v1.push(x);
                proof {
                    assert(old(self)@ == ValModel::VList(vms(es0)));
                    assert(v1@.drop_last() =~= es0);
                    assert(vms(v1@) == vms(es0).push(vm(x)));
                }
                *self = AstVal::AstList(v1);
                return ;
            },
            _ => {
                proof {
                    assert(false);
                }
            },
        }
    }

    /// Removes and returns the last element of a vector or list, or nil
    /// when it is empty.
    pub fn pop(&mut self) -> (r: AstVal)
        requires
            old(self)@ is VVec || old(self)@ is VList,
        ensures
            old(self)@ matches ValModel::VVec(es) ==> if es.len() > 0 {
                final(self)@ == ValModel::VVec(es.drop_last()) && r@ == es.last()
            } else {
                final(self)@ == old(self)@ && r@ == ValModel::VNil
            },
            old(self)@ matches ValModel::VList(es) ==> if es.len() > 0 {
                final(self)@ == ValModel::VList(es.drop_last()) && r@ == es.last()
            } else {
                final(self)@ == old(self)@ && r@ == ValModel::VNil
            },
    {
        let mut tmp = AstVal::AstNil;
        core::mem::swap(self, &mut tmp);
        match tmp {
            AstVal::AstVec(mut v1) => {
                let r = match v1.pop() {
                    Some(x) => x,
                    None => AstVal::AstNil,
                };
                proof {
                    if old(self)@->VVec_0.len() > 0 {
                        assert(vms(v1@) =~= (old(self)@->VVec_0).drop_last());
                    }
                }
                *self = AstVal::AstVec(v1);
                return r;
            },
            AstVal::AstList(mut v1) => {
                let r = match v1.pop() {
                    Some(x) => x,
                    None => AstVal::AstNil,
                };
                proof {
                    if old(self)@->VList_0.len() > 0 {
                        assert(vms(v1@) =~= (old(self)@->VList_0).drop_last());
                    }
                }
                *self = AstVal::AstList(v1);
                return r;
            },
            _ => {
                proof {
                    assert(false);
                }
                return AstVal::AstNil;
            },
        }
    }

    /// The number of elements of a vector or list, or of entries of a map
    /// or meta.
    pub fn len(&self) -> (r: usize)
        requires
            self@ is VVec || self@ is VList || self@ is VMap || self@ is VMeta,
        ensures
            self@ matches ValModel::VVec(es) ==> r == es.len(),
            self@ matches ValModel::VList(es) ==> r == es.len(),
            self@ matches ValModel::VMap(es) ==> r == es.len(),
            self@ matches ValModel::VMeta(es) ==> r == es.len(),
    {
        match self {
            AstVal::AstVec(v) => {
                proof {
                    crate::model::vms_len(v@);
                }
                return v.len();
            },
            AstVal::AstList(v) => {
                proof {
                    crate::model::vms_len(v@);
                }
                return v.len();
            },
            AstVal::AstMap(v) => {
                proof {
                    crate::model::vmp_len(v@);
                }
                return v.len();
            },
            AstVal::AstMeta(v) => {
                proof {
                    crate::model::vmp_len(v@);
                }
                return v.len();
            },
            _ => {
                proof {
                    assert(false);
                }
                return 0;
            },
        }
    }

    /// This value is a list.
    pub fn is_list(&self) -> (r: bool)
        ensures
            r == self@ is VList,
    {
        match self {
            AstVal::AstList(_) => return true,
            _ => return false,
        }
    }

    /// The first element of a list, or nil when it is empty.
    pub fn first(&self) -> (r: AstVal)
        requires
            self@ is VList,
        ensures
            self@ matches ValModel::VList(es) ==> r@ == (if es.len() == 0 {
                ValModel::VNil
            } else {
                es[0]
            }),
    {
        match self {
            AstVal::AstList(v) => {
                if v.len() == 0 {
                    return AstVal::AstNil;
                } else {
                    proof {
                        assert(vms(v@)[0] == vm(v@[0]));
                    }
                    return clone_val(&v[0]);
                }
            },
            _ => {
                proof {
                    assert(false);
                }
                return AstVal::AstNil;
            },
        }
    }

    /// All elements of a list but the first, as a list; nil when the list
    /// has at most one element.
    pub fn rest(&self) -> (r: AstVal)
        requires
            self@ is VList,
        ensures
            self@ matches ValModel::VList(es) ==> r@ == (if es.len() > 1 {
                ValModel::VList(es.skip(1))
            } else {
                ValModel::VNil
            }),
    {
        match self {
            AstVal::AstList(v) => {
                proof {
                    crate::model::vms_len(v@);
                }
                if v.len() > 1 {
                    let mut out: Vec<AstVal> = Vec::new();
                    let mut i: usize = 1;
                    while i < v.len()
                        invariant
                            1 <= i <= v@.len(),
                            out@.len() == i - 1,
                            vms(out@) == vms(v@).subrange(1, i as int),
                        decreases v.len() - i,
                    {
                        let ghost o0 = out@;
                        out.push(clone_val(&v[i]));
                        proof {
                            assert(out@.drop_last() =~= o0);
                            crate::model::vms_index(v@, i as int);
                            assert(vms(v@).subrange(1, i + 1) =~= vms(v@).subrange(
                                1,
                                i as int,
                            ).push(vms(v@)[i as int]));
                        }
                        i = i + 1;
                    }
                    proof {
                        assert(vms(v@).subrange(1, v@.len() as int) =~= vms(v@).skip(1));
                    }
                    return AstVal::AstList(out);
                } else {
                    return AstVal::AstNil;
                }
            },
            _ => {
                proof {
                    assert(false);
                }
                return AstVal::AstNil;
            },
        }
    }

    /// A new list with `a` in front of this list's elements.
    pub fn cons(&self, a: AstVal) -> (r: AstVal)
        requires
            self@ is VList,
        ensures
            self@ matches ValModel::VList(es) ==> r@ == ValModel::VList(
                seq![a@].add(es),
            ),
    {
        match self {
            AstVal::AstList(v) => {
                let ghost am = vm(a);
                let mut out: Vec<AstVal> = Vec::new();
                out.push(a);
                proof {
                    assert(out@.drop_last() =~= Seq::<AstVal>::empty());
                    assert(vms(out@) =~= seq![am].add(vms(v@).subrange(0, 0)));
                }
                let mut i: usize = 0;
                while i < v.len()
                    invariant
                        i <= v@.len(),
                        out@.len() == i + 1,
                        vms(out@) == seq![am].add(vms(v@).subrange(0, i as int)),
                    decreases v.len() - i,
                {
                    let ghost o0 = out@;
                    out.push(clone_val(&v[i]));
                    proof {
                        assert(out@.drop_last() =~= o0);
                        crate::model::vms_index(v@, i as int);
                        assert(seq![am].add(vms(v@).subrange(0, i + 1)) =~= seq![am].add(
                            vms(v@).subrange(0, i as int),
                        ).push(vms(v@)[i as int]));
                    }
                    i = i + 1;
                }
                proof {
                    crate::model::vms_len(v@);
                    assert(vms(v@).subrange(0, v@.len() as int) =~= vms(v@));
                }
                return AstVal::AstList(out);
            },
            _ => {
                proof {
                    assert(false);
                }
                return AstVal::AstNil;
            },
        }
    }

    /// Replaces this list by a new list with `a` in front of its elements.
    pub fn cons_mut(&mut self, a: AstVal)
        requires
            old(self)@ is VList,
        ensures
            old(self)@ matches ValModel::VList(es) ==> final(self)@ == ValModel::VList(
                seq![a@].add(es),
            ),
    {
        let r = self.cons(a);
        *self = r;
    }

    /// Every element of this list is an atom or a quote form: a non-list,
    /// or a non-empty list headed by the symbol `'`.
    pub fn is_leaf_list(&self) -> (r: bool)
        ensures
            r == leaf_list(self@),
    {
        match self {
            AstVal::AstList(v) => {
                proof {
                    crate::model::vms_len(v@);
                    assert(self@ == ValModel::VList(vms(v@)));
                }
                let mut i: usize = 0;
                while i < v.len()
                    invariant
                        i <= v@.len(),
                        vms(v@).len() == v@.len(),
                        self@ == ValModel::VList(vms(v@)),
                        forall|m: int| 0 <= m < i ==> leaf_elem(vms(v@)[m]),
                    decreases v.len() - i,
                {
                    let el = &v[i];
                    proof {
                        crate::model::vms_index(v@, i as int);
                    }
                    match el {
                        AstVal::AstList(v1) => {
                            proof {
                                crate::model::vms_len(v1@);
                            }
                            if v1.len() == 0 {
                                proof {
                                    assert(!leaf_elem(vms(v@)[i as int]));
                                    crate::model::lemma_not_leaf_list(self@, vms(v@), i as int);
                                }
                                return false;
                            }
                            let h1 = &v1[0];
                            proof {
                                crate::model::vms_index(v1@, 0);
                            }
                            match h1 {
                                AstVal::AstSymbol(s) => {
                                    let q: String = "'".to_owned();
                                    if *s == q {
                                        proof {
                                            assert(leaf_elem(vms(v@)[i as int]));
                                        }
                                    } else {
                                        proof {
                                            assert(!leaf_elem(vms(v@)[i as int]));
                                            crate::model::lemma_not_leaf_list(
                                                self@,
                                                vms(v@),
                                                i as int,
                                            );
                                        }
                                        return false;
                                    }
                                },
                                _ => {
                                    proof {
                                        assert(!leaf_elem(vms(v@)[i as int]));
                                        crate::model::lemma_not_leaf_list(
                                            self@,
                                            vms(v@),
                                            i as int,
                                        );
                                    }
                                    return false;
                                },
                            }
                        },
                        _ => {
                            proof {
                                assert(leaf_elem(vms(v@)[i as int]));
                            }
                        },
                    }
                    i = i + 1;
                }
                return true;
            },
            _ => return false,
        }
    }

    /// This value is a leaf: a non-list, or a list of leaves in the sense
    /// of [`Self::is_leaf_list`].
    pub fn is_leaf(&self) -> (r: bool)
        ensures
            r == (!(self@ is VList) || leaf_list(self@)),
    {
        match self {
            AstVal::AstList(_) => return self.is_leaf_list(),
            _ => return true,
        }
    }

    /// The text of an atom: the payload of a boolean, integer, float,
    /// string, symbol, keyword or comment line.
    pub fn text(&self) -> (r: String)
        requires
            text_model(self@) is Some,
        ensures
            Some(r@) == text_model(self@),
    {
        match self {
            AstVal::AstBool(b) => {
                if *b {
                    return "true".to_owned();
                } else {
                    return "false".to_owned();
                }
            },
            AstVal::AstInt(i) => {
                let v = i32_dec_chars(*i);
                return string_of(&v);
            },
            AstVal::AstFloat(s) => return s.clone(),
            AstVal::AstString(s) => return s.clone(),
            AstVal::AstSymbol(s) => return s.clone(),
            AstVal::AstKeyword(s) => return s.clone(),
            AstVal::AstCommentLine(s) => return s.clone(),
            _ => {
                proof {
                    assert(false);
                }
                return String::new();
            },
        }
    }
}

} // verus!
