//! Laws of the whole pipeline, stated over the spec models and proved
//! once for all inputs: what atoms compile to, the shape of a compiled
//! conditional, and that context scopes reach every descendant so bound
//! identifiers emit as bare names.
use vstd::prelude::*;

verus! {

use crate::canon::{
    bind_syms, dispatch_spec, dissem, dissem_seq, in_ctx, leaf_node, let_spec, syntax_spec,
    NodeModel,
};
use crate::compile_spec;
use crate::diag::ErrKind;
use crate::model::{head_symbol, veq, ValModel};
use crate::num::{i32_dec, is_digit, lemma_dec_round_trip, u_dec};
use crate::reader::{lemma_num_take_all, spec_read_next, ReadOut};
use crate::translate::{amp_cat, emit_each, emit_spec, if_emit};

broadcast use crate::canon::dissem_seq_len, crate::canon::dissem_seq_index;

/// Every node of the tree, `n` itself included, carries the scope `sc`
/// among its context scopes.
pub open spec fn scope_everywhere(n: NodeModel, sc: Seq<ValModel>) -> bool
    decreases n,
{
    n.context.contains(sc) && (forall|i: int|
        0 <= i < n.body.len() ==> scope_everywhere(#[trigger] n.body[i], sc))
}

/// Dissemination carries a scope of the node or of its ancestors to
/// every descendant.
pub proof fn lemma_dissem_spreads(n: NodeModel, anc: Seq<Seq<ValModel>>, sc: Seq<ValModel>)
    requires
        n.context.contains(sc) || anc.contains(sc),
    ensures
        scope_everywhere(dissem(n, anc), sc),
    decreases n,
{
    let merged = n.context + anc;
    if n.context.contains(sc) {
        let i = choose|i: int| 0 <= i < n.context.len() && n.context[i] == sc;
        assert(merged[i] == sc);
        assert(merged.contains(sc));
    } else {
        let i = choose|i: int| 0 <= i < anc.len() && anc[i] == sc;
        assert(merged[n.context.len() + i] == sc);
        assert(merged.contains(sc));
    }
    let d = dissem(n, anc);
    assert forall|i: int| 0 <= i < d.body.len() implies scope_everywhere(
        #[trigger] d.body[i],
        sc,
    ) by {
        crate::canon::dissem_seq_len(n.body, merged);
        crate::canon::dissem_seq_index(n.body, merged, i);
        assert(d.body[i] == dissem(n.body[i], merged));
        lemma_dissem_spreads(n.body[i], merged, sc);
    }
}

/// A well-formed `let` form registers every binding target in a scope
/// that the dissemination pass carries to every node of the result:
/// every occurrence of a bound name below the `let` sees its binding.
pub proof fn lemma_let_scope(v: Seq<ValModel>)
    requires
        v.len() >= 2,
        v[0] == ValModel::VSym("let"@),
        v[1] is VVec,
        syntax_spec(ValModel::VList(v)) is Ok,
    ensures
        syntax_spec(ValModel::VList(v)) matches Ok(n) ==> scope_everywhere(
            n,
            bind_syms(v[1]->VVec_0),
        ),
{
    reveal_strlit("let");
    reveal_strlit("defn");
    reveal_strlit("if");
    reveal_strlit("=");
    let c = ValModel::VList(v);
    assert(c->VList_0 == v);
    assert(head_symbol(c) == Some("let"@));
    assert(head_symbol(c)->Some_0 == "let"@);
    assert("let"@.len() == 3 && "defn"@.len() == 4 && "if"@.len() == 2 && "="@.len() == 1);
    assert(!("let"@ == "defn"@));
    assert(!("let"@ == "if"@));
    assert(dispatch_spec(c) == let_spec(c->VList_0));
    assert(dispatch_spec(c) == let_spec(v));
    let node = dispatch_spec(c)->Ok_0;
    let b = v[1]->VVec_0;
    assert(v[1] == ValModel::VVec(b));
    assert(let_spec(v) is Ok);
    assert(b.len() % 2 == 0);
    assert(crate::canon::let_pairs_spec(b, 0) is Ok);
    assert(crate::canon::expand_args(v, 2) is Ok);
    let sc = bind_syms(b);
    assert(node.context == seq![sc]);
    assert(node.context[0] == sc);
    assert(node.context.contains(sc));
    lemma_dissem_spreads(node, Seq::empty(), sc);
}

/// A node whose head is a symbol of one of its context scopes emits as
/// the bare identifier, never as a literal or a form.
pub proof fn lemma_bound_identifier(d: NodeModel, sc: Seq<ValModel>, x: Seq<char>)
    requires
        d.context.contains(sc),
        sc.contains(ValModel::VSym(x)),
        d.this == ValModel::VSym(x),
    ensures
        emit_spec(d) == Result::<Seq<char>, ErrKind>::Ok(x),
{
    let i = choose|i: int| 0 <= i < d.context.len() && d.context[i] == sc;
    let j = choose|j: int| 0 <= j < sc.len() && sc[j] == ValModel::VSym(x);
    assert(veq(d.this, d.context[i][j]));
    assert(in_ctx(d.context, d.this));
}

/// What each literal atom compiles to: the constructor text of the same
/// tagged value, so re-emitting an atom reproduces a value-equivalent
/// construct.
pub proof fn lemma_atom_literal(m: ValModel)
    requires
        m is VNil || m is VBool || m is VInt || m is VFloat || m is VStr,
    ensures
        m is VNil ==> compile_spec(m) == Result::<Seq<char>, ErrKind>::Ok("CljVal::CljNil"@),
        m matches ValModel::VBool(b) ==> compile_spec(m) == Result::<Seq<char>, ErrKind>::Ok(
            "CljVal::CljBool("@ + (if b {
                "true"@
            } else {
                "false"@
            }) + ")"@,
        ),
        m matches ValModel::VInt(i) ==> compile_spec(m) == Result::<Seq<char>, ErrKind>::Ok(
            "CljVal::CljInt("@ + i32_dec(i as int) + ")"@,
        ),
        m matches ValModel::VFloat(tk) ==> compile_spec(m) == Result::<Seq<char>, ErrKind>::Ok(
            "CljVal::CljFloat("@ + tk + ")"@,
        ),
        m matches ValModel::VStr(st) ==> compile_spec(m) == Result::<Seq<char>, ErrKind>::Ok(
            "CljVal::CljString(\""@ + st + "\".to_string())"@,
        ),
{
    assert(dispatch_spec(m) == Result::<NodeModel, ErrKind>::Ok(leaf_node(m)));
    let n = dissem(leaf_node(m), Seq::empty());
    assert(n.context =~= Seq::<Seq<ValModel>>::empty());
    assert(n.body =~= Seq::<NodeModel>::empty());
    assert(!in_ctx(n.context, n.this));
}

/// The decimal text of an integer in range reads back as exactly that
/// integer, with nothing left over.
pub proof fn lemma_int_round_trip(i: int)
    requires
        -0x8000_0000 <= i <= 0x7fff_ffff,
    ensures
        spec_read_next(i32_dec(i)) == ReadOut::Val(ValModel::VInt(i as i32), Seq::<char>::empty()),
{
    let s = i32_dec(i);
    if i >= 0 {
        lemma_dec_round_trip(i);
        assert(s == u_dec(i));
        assert(is_digit(s[0]));
        lemma_num_take_all(s);
        assert(!crate::reader::is_ws(s[0]));
        assert(s[0] != '-');
    } else {
        let m = -i;
        lemma_dec_round_trip(m);
        assert(s == seq!['-'] + u_dec(m));
        assert(s[0] == '-');
        assert(s.len() >= 2);
        assert(s[1] == u_dec(m)[0]);
        assert(is_digit(s[1]));
        assert(forall|k: int| 0 <= k < s.len() ==> crate::reader::is_num_char(#[trigger] s[k]));
        lemma_num_take_all(s);
        assert(s.skip(1) =~= u_dec(m));
        assert(crate::num::int_token_val(s) == Some(i));
    }
}

/// What a bare symbol that is no well-known head and no bound name
/// compiles to: a generic call of that name with no arguments.
pub proof fn lemma_symbol_call(s: Seq<char>)
    requires
        s != "fn"@,
        s != "let"@,
        s != "if"@,
        s != "do"@,
        s != "println"@,
        s != "="@,
    ensures
        compile_spec(ValModel::VSym(s)) == Result::<Seq<char>, ErrKind>::Ok(
            s + "("@ + ")"@,
        ),
{
    let m = ValModel::VSym(s);
    assert(dispatch_spec(m) == Result::<NodeModel, ErrKind>::Ok(leaf_node(m)));
    let n = dissem(leaf_node(m), Seq::empty());
    assert(n.context =~= Seq::<Seq<ValModel>>::empty());
    assert(n.body =~= Seq::<NodeModel>::empty());
    assert(!in_ctx(n.context, n.this));
    assert(emit_each(n.body) == Result::<Seq<Seq<char>>, ErrKind>::Ok(Seq::empty()));
    assert(amp_cat(Seq::<Seq<char>>::empty()) == Seq::<char>::empty());
    assert(s + "("@ + Seq::<char>::empty() + ")"@ =~= s + "("@ + ")"@);
}

/// A well-formed `(if C T E)` compiles to the target conditional form,
/// its three branches each independently emitted as their own
/// sub-expressions.
pub proof fn lemma_if_form(c: ValModel, t: ValModel, e: ValModel)
    requires
        syntax_spec(ValModel::VList(seq![ValModel::VSym("if"@), c, t, e])) is Ok,
    ensures
        syntax_spec(ValModel::VList(seq![ValModel::VSym("if"@), c, t, e])) matches Ok(n) ==> {
            &&& n.body.len() == 3
            &&& (emit_spec(n.body[0]) is Ok && emit_spec(n.body[1]) is Ok && emit_spec(
                n.body[2],
            ) is Ok) ==> emit_spec(n) == Result::<Seq<char>, ErrKind>::Ok(
                "if("@ + emit_spec(n.body[0])->Ok_0 + "){"@ + emit_spec(n.body[1])->Ok_0
                    + "}else{"@ + emit_spec(n.body[2])->Ok_0 + "}"@,
            )
        },
{
    reveal_strlit("let");
    reveal_strlit("defn");
    reveal_strlit("if");
    reveal_strlit("=");
    reveal_strlit("fn");
    reveal_strlit("do");
    reveal_strlit("println");
    let v = seq![ValModel::VSym("if"@), c, t, e];
    let cv = ValModel::VList(v);
    assert(cv->VList_0 == v);
    assert(head_symbol(cv) == Some("if"@));
    assert("if"@.len() == 2 && "defn"@.len() == 4 && "let"@.len() == 3 && "="@.len() == 1
        && "fn"@.len() == 2 && "do"@.len() == 2 && "println"@.len() == 7);
    assert("if"@[0] == 'i' && "fn"@[0] == 'f' && "do"@[0] == 'd');
    assert(!("if"@ == "defn"@));
    assert(!("if"@ == "fn"@));
    assert(!("if"@ == "let"@));
    assert(!("if"@ == "do"@));
    assert(dispatch_spec(cv) == crate::canon::if_spec(v));
    let node = dispatch_spec(cv)->Ok_0;
    assert(crate::canon::expand_args(v, 1) is Ok);
    assert(node.body.len() == 3);
    let n = dissem(node, Seq::empty());
    assert(node.context =~= Seq::<Seq<ValModel>>::empty());
    assert(n.context =~= Seq::<Seq<ValModel>>::empty());
    assert(!in_ctx(n.context, n.this));
    crate::canon::dissem_seq_len(node.body, node.context + Seq::empty());
    assert(n.body == dissem_seq(node.body, node.context + Seq::empty()));
    assert(n.body.len() == 3);
    assert(n.this == ValModel::VSym("if"@));
    assert(syntax_spec(cv) == Result::<NodeModel, ErrKind>::Ok(n));
    assert((emit_spec(n.body[0]) is Ok && emit_spec(n.body[1]) is Ok && emit_spec(n.body[2])
        is Ok) ==> emit_spec(n) == Result::<Seq<char>, ErrKind>::Ok(
        "if("@ + emit_spec(n.body[0])->Ok_0 + "){"@ + emit_spec(n.body[1])->Ok_0 + "}else{"@
            + emit_spec(n.body[2])->Ok_0 + "}"@,
    )) by {
        if emit_spec(n.body[0]) is Ok && emit_spec(n.body[1]) is Ok && emit_spec(n.body[2])
            is Ok {
            assert(!("if"@ == "fn"@));
            assert(!("if"@ == "let"@));
            assert(emit_spec(n) == if_emit(n));
            let e0 = emit_spec(n.body[0])->Ok_0;
            let e1 = emit_spec(n.body[1])->Ok_0;
            let e2 = emit_spec(n.body[2])->Ok_0;
            assert(if_emit(n) == Result::<Seq<char>, ErrKind>::Ok(
                "if("@ + e0 + "){"@ + e1 + "}else{"@ + e2 + "}"@,
            ));
        }
    }
}

} // verus!
