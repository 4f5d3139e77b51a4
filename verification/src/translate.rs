//! The emitter: walks a canonical tree bottom-up and produces
//! target-language source text, consulting the context scopes to tell
//! bound-identifier references from literals and form heads.
use vstd::prelude::*;
use vstd::string::StringExecFns;

verus! {

use crate::ast::AstVal;
use crate::canon::{in_ctx, nm, nms, NodeModel};
use crate::diag::ErrKind;
use crate::model::ValModel;
use crate::num::{i32_dec, i32_dec_chars};
use crate::strutil::{chars_of, string_of};
use crate::syntax::SyntaxNode;

broadcast use crate::canon::nms_len, crate::canon::nms_index;

/// The emissions of the children of `body`, in order; the first fatal
/// condition wins.
pub open spec fn emit_each(body: Seq<NodeModel>) -> Result<Seq<Seq<char>>, ErrKind>
    decreases body, 2int, 0int,
{
    if body.len() == 0 {
        Ok(Seq::empty())
    } else {
        match emit_each(body.drop_last()) {
            Err(e) => Err(e),
            Ok(ts) => match emit_spec(body.last()) {
                Err(e) => Err(e),
                Ok(t) => Ok(ts.push(t)),
            },
        }
    }
}

/// A fatal emission in a prefix decides the whole sequence.
pub proof fn lemma_emit_each_err(s: Seq<NodeModel>, j: int)
    requires
        0 <= j <= s.len(),
        emit_each(s.take(j)) is Err,
    ensures
        emit_each(s) == emit_each(s.take(j)),
    decreases s.len() - j,
{
    if j < s.len() {
        assert(s.take(j + 1).drop_last() =~= s.take(j));
        lemma_emit_each_err(s, j + 1);
    } else {
        assert(s.take(j) =~= s);
    }
}

/// The statements of a block: each text followed by `;`.
pub open spec fn semi_cat(ps: Seq<Seq<char>>) -> Seq<char>
    decreases ps.len(),
{
    if ps.len() == 0 {
        Seq::empty()
    } else {
        semi_cat(ps.drop_last()) + ps.last() + ";"@
    }
}

/// The arguments of a call: each text passed by reference and followed
/// by a comma.
pub open spec fn amp_cat(ps: Seq<Seq<char>>) -> Seq<char>
    decreases ps.len(),
{
    if ps.len() == 0 {
        Seq::empty()
    } else {
        amp_cat(ps.drop_last()) + "&"@ + ps.last() + ","@
    }
}

/// Comma-separated texts, each followed by a comma.
pub open spec fn comma_cat(ps: Seq<Seq<char>>) -> Seq<char>
    decreases ps.len(),
{
    if ps.len() == 0 {
        Seq::empty()
    } else {
        comma_cat(ps.drop_last()) + ps.last() + ","@
    }
}

/// One `{}` placeholder per argument.
pub open spec fn braces(k: int) -> Seq<char>
    decreases k,
{
    if k <= 0 {
        Seq::empty()
    } else {
        braces(k - 1) + "{}"@
    }
}

/// The parameter list of a function: each name untyped at the source
/// level, taken by reference.
pub open spec fn params_cat(ps: Seq<NodeModel>, i: int) -> Result<Seq<char>, ErrKind>
    decreases ps.len() - i,
{
    if i >= ps.len() || i < 0 {
        Ok(Seq::empty())
    } else {
        match ps[i].this {
            ValModel::VStr(t) => match params_cat(ps, i + 1) {
                Err(e) => Err(e),
                Ok(rest) => Ok(t + ":&CljVal,"@ + rest),
            },
            _ => Err(ErrKind::EmitUnsupported),
        }
    }
}

/// The emission of a `do` node: its children as a statement block whose
/// final statement contributes the value.
pub open spec fn do_emit(n: NodeModel) -> Result<Seq<char>, ErrKind>
    decreases n, 0int, 0int,
{
    match emit_each(n.body) {
        Err(e) => Err(e),
        Ok(ps) => Ok(("{"@ + semi_cat(ps)).drop_last() + "}"@),
    }
}

/// The emission of a generic call: the callee, then every child by
/// reference.
pub open spec fn call_emit(n: NodeModel, t: Seq<char>) -> Result<Seq<char>, ErrKind>
    decreases n, 0int, 0int,
{
    match emit_each(n.body) {
        Err(e) => Err(e),
        Ok(ps) => Ok(t + "("@ + amp_cat(ps) + ")"@),
    }
}

/// The emission of a `println` call: a formatted print followed by a
/// nil value.
pub open spec fn println_emit(n: NodeModel) -> Result<Seq<char>, ErrKind>
    decreases n, 0int, 0int,
{
    match emit_each(n.body) {
        Err(e) => Err(e),
        Ok(ps) => Ok(
            "println!(\""@ + braces(ps.len() as int) + "\","@ + comma_cat(ps)
                + ");CljVal::CljNil"@,
        ),
    }
}

/// The emission of a `let` node: a binding statement.
pub open spec fn let_emit(n: NodeModel) -> Result<Seq<char>, ErrKind>
    decreases n, 0int, 0int,
{
    if n.body.len() < 2 {
        Err(ErrKind::EmitUnsupported)
    } else {
        match n.body[0].this {
            ValModel::VSym(s1) => match emit_spec(n.body[1]) {
                Err(e) => Err(e),
                Ok(e1) => Ok("let "@ + s1 + " = "@ + e1 + ";"@),
            },
            _ => Err(ErrKind::EmitUnsupported),
        }
    }
}

/// The emission of an `if` node: the conditional form of the target
/// language, each branch its own emission.
pub open spec fn if_emit(n: NodeModel) -> Result<Seq<char>, ErrKind>
    decreases n, 0int, 0int,
{
    if n.body.len() < 3 {
        Err(ErrKind::EmitUnsupported)
    } else {
        match emit_spec(n.body[0]) {
            Err(e) => Err(e),
            Ok(e0) => match emit_spec(n.body[1]) {
                Err(e) => Err(e),
                Ok(e1) => match emit_spec(n.body[2]) {
                    Err(e) => Err(e),
                    Ok(e2) => Ok(
                        "if("@ + e0 + "){"@ + e1 + "}else{"@ + e2 + "}"@,
                    ),
                },
            },
        }
    }
}

/// The emission of an `=` node: an equality comparison of the two
/// children.
pub open spec fn equal_emit(n: NodeModel) -> Result<Seq<char>, ErrKind>
    decreases n, 0int, 0int,
{
    if n.body.len() < 2 {
        Err(ErrKind::EmitUnsupported)
    } else {
        match emit_spec(n.body[0]) {
            Err(e) => Err(e),
            Ok(e0) => match emit_spec(n.body[1]) {
                Err(e) => Err(e),
                Ok(e1) => Ok("( "@ + e0 + " == "@ + e1 + " )"@),
            },
        }
    }
}

/// The emission of a `fn` node: a function declaration from the nested
/// name literal and parameter literals, then the body block. A function
/// named `main` loses the return type, and its body's final expression
/// becomes a statement.
pub open spec fn fn_emit(n: NodeModel) -> Result<Seq<char>, ErrKind>
    decreases n, 0int, 0int,
{
    if n.body.len() < 3 || n.body[0].body.len() < 1 {
        Err(ErrKind::EmitUnsupported)
    } else {
        match n.body[0].body[0].this {
            ValModel::VStr(s1) => {
                let main_flag = s1 == "main"@;
                match params_cat(n.body[1].body, 0) {
                    Err(e) => Err(e),
                    Ok(params) => match emit_spec(n.body[2]) {
                        Err(e) => Err(e),
                        Ok(eb) => {
                            let whole = "fn "@ + s1 + "("@ + params + (if main_flag {
                                ")"@
                            } else {
                                ")->CljVal"@
                            }) + eb;
                            if main_flag {
                                Ok(whole.drop_last() + ";}"@)
                            } else {
                                Ok(whole)
                            }
                        },
                    },
                }
            },
            _ => Err(ErrKind::EmitUnsupported),
        }
    }
}

/// The emission of one canonical tree node: a head symbol found in the
/// node's own context scopes emits as the bare identifier; otherwise the
/// well-known heads follow their templates, any other symbol head is a
/// generic call, and a non-symbol head emits as the literal-value
/// constructor text of its tagged value.
pub open spec fn emit_spec(n: NodeModel) -> Result<Seq<char>, ErrKind>
    decreases n, 1int, 0int,
{
    if in_ctx(n.context, n.this) {
        match n.this {
            ValModel::VSym(s) => Ok(s),
            _ => Err(ErrKind::EmitUnsupported),
        }
    } else {
        match n.this {
            ValModel::VSym(t) => if t == "fn"@ {
                fn_emit(n)
            } else if t == "let"@ {
                let_emit(n)
            } else if t == "if"@ {
                if_emit(n)
            } else if t == "do"@ {
                do_emit(n)
            } else if t == "println"@ {
                println_emit(n)
            } else if t == "="@ {
                equal_emit(n)
            } else {
                call_emit(n, t)
            },
            ValModel::VNil => Ok("CljVal::CljNil"@),
            ValModel::VBool(b) => Ok(
                "CljVal::CljBool("@ + (if b {
                    "true"@
                } else {
                    "false"@
                }) + ")"@,
            ),
            ValModel::VInt(i) => Ok("CljVal::CljInt("@ + i32_dec(i as int) + ")"@),
            ValModel::VFloat(tok) => Ok("CljVal::CljFloat("@ + tok + ")"@),
            ValModel::VStr(s) => Ok(
                "CljVal::CljString(\""@ + s + "\".to_string())"@,
            ),
            _ => Err(ErrKind::EmitUnsupported),
        }
    }
}

/// The emissions of every child of `body`, in order.
fn emit_children(body: &Vec<SyntaxNode>) -> (res: Result<Vec<String>, ErrKind>)
    ensures
        emit_each(nms(body@)) matches Ok(ts) ==> res matches Ok(v) && v@.len() == ts.len()
            && (forall|k: int| 0 <= k < ts.len() ==> (#[trigger] v@[k])@ == ts[k]),
        emit_each(nms(body@)) matches Err(e) ==> res == Result::<Vec<String>, ErrKind>::Err(e),
    decreases body, 1int, 0int,
{
    let ghost ms = nms(body@);
    let mut out: Vec<String> = Vec::new();
    let mut i: usize = 0;
    proof {
        assert(ms.take(0) =~= Seq::<NodeModel>::empty());
    }
    while i < body.len()
        invariant
            i <= body@.len(),
            ms == nms(body@),
            ms.len() == body@.len(),
            out@.len() == i,
            emit_each(ms.take(i as int)) is Ok,
            emit_each(ms.take(i as int))->Ok_0.len() == i,
            forall|k: int|
                0 <= k < i ==> (#[trigger] out@[k])@ == emit_each(ms.take(i as int))->Ok_0[k],
        decreases body@.len() - i,
    {
        let el = &body[i];
        proof {
            assert(ms.take(i + 1).drop_last() =~= ms.take(i as int));
            assert(ms.take(i + 1).last() == ms[i as int]);
        }
        match translate(el) {
            Err(e) => {
                proof {
                    lemma_emit_each_err(ms, i + 1);
                }
                return Err(e);
            },
            Ok(t) => {
                out.push(t);
                i = i + 1;
            },
        }
    }
    proof {
        assert(ms.take(ms.len() as int) =~= ms);
    }
    return Ok(out);
}

/// Joins texts as statements, each followed by `;`.
fn cat_semi(parts: &Vec<String>, ts: Ghost<Seq<Seq<char>>>) -> (r: String)
    requires
        parts@.len() == ts@.len(),
        forall|k: int| 0 <= k < ts@.len() ==> (#[trigger] parts@[k])@ == ts@[k],
    ensures
        r@ == semi_cat(ts@),
{
    let mut s = String::new();
    let mut i: usize = 0;
    while i < parts.len()
        invariant
            i <= parts@.len(),
            parts@.len() == ts@.len(),
            forall|k: int| 0 <= k < ts@.len() ==> (#[trigger] parts@[k])@ == ts@[k],
            s@ == semi_cat(ts@.take(i as int)),
        decreases parts@.len() - i,
    {
        s.append(parts[i].as_str());
        s.append(";");
        proof {
            assert(ts@.take(i + 1).drop_last() =~= ts@.take(i as int));
            assert(ts@.take(i + 1).last() == ts@[i as int]);
        }
        i = i + 1;
    }
    proof {
        assert(ts@.take(ts@.len() as int) =~= ts@);
    }
    s
}

/// Joins texts as call arguments, each by reference and followed by a
/// comma.
fn cat_amp(parts: &Vec<String>, ts: Ghost<Seq<Seq<char>>>) -> (r: String)
    requires
        parts@.len() == ts@.len(),
        forall|k: int| 0 <= k < ts@.len() ==> (#[trigger] parts@[k])@ == ts@[k],
    ensures
        r@ == amp_cat(ts@),
{
    let mut s = String::new();
    let mut i: usize = 0;
    while i < parts.len()
        invariant
            i <= parts@.len(),
            parts@.len() == ts@.len(),
            forall|k: int| 0 <= k < ts@.len() ==> (#[trigger] parts@[k])@ == ts@[k],
            s@ == amp_cat(ts@.take(i as int)),
        decreases parts@.len() - i,
    {
        s.append("&");
        s.append(parts[i].as_str());
        s.append(",");
        proof {
            assert(ts@.take(i + 1).drop_last() =~= ts@.take(i as int));
            assert(ts@.take(i + 1).last() == ts@[i as int]);
        }
        i = i + 1;
    }
    proof {
        assert(ts@.take(ts@.len() as int) =~= ts@);
    }
    s
}

/// Joins texts, each followed by a comma.
fn cat_comma(parts: &Vec<String>, ts: Ghost<Seq<Seq<char>>>) -> (r: String)
    requires
        parts@.len() == ts@.len(),
        forall|k: int| 0 <= k < ts@.len() ==> (#[trigger] parts@[k])@ == ts@[k],
    ensures
        r@ == comma_cat(ts@),
{
    let mut s = String::new();
    let mut i: usize = 0;
    while i < parts.len()
        invariant
            i <= parts@.len(),
            parts@.len() == ts@.len(),
            forall|k: int| 0 <= k < ts@.len() ==> (#[trigger] parts@[k])@ == ts@[k],
            s@ == comma_cat(ts@.take(i as int)),
        decreases parts@.len() - i,
    {
        s.append(parts[i].as_str());
        s.append(",");
        proof {
            assert(ts@.take(i + 1).drop_last() =~= ts@.take(i as int));
            assert(ts@.take(i + 1).last() == ts@[i as int]);
        }
        i = i + 1;
    }
    proof {
        assert(ts@.take(ts@.len() as int) =~= ts@);
    }
    s
}

/// One `{}` placeholder per argument.
fn braces_exec(k: usize) -> (r: String)
    ensures
        r@ == braces(k as int),
{
    let mut s = String::new();
    let mut i: usize = 0;
    while i < k
        invariant
            i <= k,
            s@ == braces(i as int),
        decreases k - i,
    {
        s.append("{}");
        i = i + 1;
    }
    s
}

/// The string without its last character.
fn drop_last_char(s: String) -> (r: String)
    requires
        s@.len() > 0,
    ensures
        r@ == s@.drop_last(),
{
    let mut cs = chars_of(s.as_str());
    cs.pop();
    string_of(&cs)
}

/// Builds the parameter list text from position `i` on: each parameter
/// name untyped, taken by reference.
fn params_build(ps: &Vec<SyntaxNode>, i: usize) -> (res: Result<String, ErrKind>)
    ensures
        params_cat(nms(ps@), i as int) matches Ok(t) ==> res matches Ok(r) && r@ == t,
        params_cat(nms(ps@), i as int) matches Err(e) ==> res == Result::<String, ErrKind>::Err(
            e,
        ),
    decreases ps@.len() - i,
{
    if i >= ps.len() {
        return Ok(String::new());
    }
    let el = &ps[i];
    match &el.this {
        AstVal::AstString(t) => {
            match params_build(ps, i + 1) {
                Err(e) => {
                    return Err(e);
                },
                Ok(rest) => {
                    let mut s = t.clone();
                    s.append(":&CljVal,");
                    s.append(rest.as_str());
                    return Ok(s);
                },
            }
        },
        _ => {
            return Err(ErrKind::EmitUnsupported);
        },
    }
}

/// Emits a function declaration from a `fn` node.
fn translate_fn(n: &SyntaxNode) -> (res: Result<String, ErrKind>)
    ensures
        fn_emit(n@) matches Ok(t) ==> res matches Ok(r) && r@ == t,
        fn_emit(n@) matches Err(e) ==> res == Result::<String, ErrKind>::Err(e),
    decreases n, 2int, 0int,
{
    proof {
        assert(n@.body == nms(n.body@));
    }
    if n.body.len() < 3 {
        return Err(ErrKind::EmitUnsupported);
    }
    let b0 = &n.body[0];
    proof {
        assert(n@.body[0] == nm(*b0));
        assert(n@.body[0].body == nms(b0.body@));
    }
    if b0.body.len() < 1 {
        return Err(ErrKind::EmitUnsupported);
    }
    let nn = &b0.body[0];
    proof {
        assert(n@.body[0].body[0] == nm(*nn));
    }
    match &nn.this {
        AstVal::AstString(s1) => {
            let main_s: String = "main".to_owned();
            let main_flag = *s1 == main_s;
            let b1 = &n.body[1];
            proof {
                assert(n@.body[1] == nm(*b1));
                assert(n@.body[1].body == nms(b1.body@));
                assert(n@.body[2] == nm(n.body@[2]));
            }
            match params_build(&b1.body, 0) {
                Err(e) => {
                    return Err(e);
                },
                Ok(params) => {
                    match translate(&n.body[2]) {
                        Err(e) => {
                            return Err(e);
                        },
                        Ok(eb) => {
                            let mut s: String = "fn ".to_owned();
                            s.append(s1.as_str());
                            s.append("(");
                            s.append(params.as_str());
                            if main_flag {
                                s.append(")");
                            } else {
                                s.append(")->CljVal");
                            }
                            s.append(eb.as_str());
                            if main_flag {
                                proof {
                                    reveal_strlit("fn ");
                                    assert(s@.len() > 0);
                                }
                                let mut out = drop_last_char(s);
                                out.append(";}");
                                return Ok(out);
                            }
                            return Ok(s);
                        },
                    }
                },
            }
        },
        _ => {
            return Err(ErrKind::EmitUnsupported);
        },
    }
}

/// Emits a binding statement from a `let` node.
fn translate_let(n: &SyntaxNode) -> (res: Result<String, ErrKind>)
    ensures
        let_emit(n@) matches Ok(t) ==> res matches Ok(r) && r@ == t,
        let_emit(n@) matches Err(e) ==> res == Result::<String, ErrKind>::Err(e),
    decreases n, 2int, 0int,
{
    proof {
        assert(n@.body == nms(n.body@));
    }
    if n.body.len() < 2 {
        return Err(ErrKind::EmitUnsupported);
    }
    let b0 = &n.body[0];
    proof {
        assert(n@.body[0] == nm(*b0));
        assert(n@.body[1] == nm(n.body@[1]));
    }
    match &b0.this {
        AstVal::AstSymbol(s1) => {
            match translate(&n.body[1]) {
                Err(e) => {
                    return Err(e);
                },
                Ok(e1) => {
                    let mut s: String = "let ".to_owned();
                    s.append(s1.as_str());
                    s.append(" = ");
                    s.append(e1.as_str());
                    s.append(";");
                    return Ok(s);
                },
            }
        },
        _ => {
            return Err(ErrKind::EmitUnsupported);
        },
    }
}

/// Emits a statement block from a `do` node.
fn translate_do(n: &SyntaxNode) -> (res: Result<String, ErrKind>)
    ensures
        do_emit(n@) matches Ok(t) ==> res matches Ok(r) && r@ == t,
        do_emit(n@) matches Err(e) ==> res == Result::<String, ErrKind>::Err(e),
    decreases n, 2int, 0int,
{
    proof {
        assert(n@.body == nms(n.body@));
    }
    match emit_children(&n.body) {
        Err(e) => {
            return Err(e);
        },
        Ok(parts) => {
            let ghost ts = emit_each(nms(n.body@))->Ok_0;
            let inner = cat_semi(&parts, Ghost(ts));
            let mut s: String = "{".to_owned();
            s.append(inner.as_str());
            proof {
                reveal_strlit("{");
                assert(s@.len() > 0);
            }
            let mut out = drop_last_char(s);
            out.append("}");
            return Ok(out);
        },
    }
}

/// Emits the conditional form from an `if` node.
fn translate_if(n: &SyntaxNode) -> (res: Result<String, ErrKind>)
    ensures
        if_emit(n@) matches Ok(t) ==> res matches Ok(r) && r@ == t,
        if_emit(n@) matches Err(e) ==> res == Result::<String, ErrKind>::Err(e),
    decreases n, 2int, 0int,
{
    proof {
        assert(n@.body == nms(n.body@));
    }
    if n.body.len() < 3 {
        return Err(ErrKind::EmitUnsupported);
    }
    proof {
        assert(n@.body[0] == nm(n.body@[0]));
        assert(n@.body[1] == nm(n.body@[1]));
        assert(n@.body[2] == nm(n.body@[2]));
    }
    match translate(&n.body[0]) {
        Err(e) => {
            return Err(e);
        },
        Ok(e0) => {
            match translate(&n.body[1]) {
                Err(e) => {
                    return Err(e);
                },
                Ok(e1) => {
                    match translate(&n.body[2]) {
                        Err(e) => {
                            return Err(e);
                        },
                        Ok(e2) => {
                            let mut s: String = "if(".to_owned();
                            s.append(e0.as_str());
                            s.append("){");
                            s.append(e1.as_str());
                            s.append("}else{");
                            s.append(e2.as_str());
                            s.append("}");
                            return Ok(s);
                        },
                    }
                },
            }
        },
    }
}

/// Emits a generic call from any other symbol-headed node.
fn translate_call(n: &SyntaxNode) -> (res: Result<String, ErrKind>)
    requires
        n@.this is VSym,
    ensures
        call_emit(n@, n@.this->VSym_0) matches Ok(t) ==> res matches Ok(r) && r@ == t,
        call_emit(n@, n@.this->VSym_0) matches Err(e) ==> res == Result::<String, ErrKind>::Err(
            e,
        ),
    decreases n, 2int, 0int,
{
    proof {
        assert(n@.body == nms(n.body@));
    }
    match &n.this {
        AstVal::AstSymbol(s1) => {
            match emit_children(&n.body) {
                Err(e) => {
                    return Err(e);
                },
                Ok(parts) => {
                    let ghost ts = emit_each(nms(n.body@))->Ok_0;
                    let args = cat_amp(&parts, Ghost(ts));
                    let mut s = s1.clone();
                    s.append("(");
                    s.append(args.as_str());
                    s.append(")");
                    return Ok(s);
                },
            }
        },
        _ => {
            proof {
                assert(false);
            }
            return Err(ErrKind::EmitUnsupported);
        },
    }
}

/// Emits a formatted print producing nil from a `println` node.
fn translate_println(n: &SyntaxNode) -> (res: Result<String, ErrKind>)
    ensures
        println_emit(n@) matches Ok(t) ==> res matches Ok(r) && r@ == t,
        println_emit(n@) matches Err(e) ==> res == Result::<String, ErrKind>::Err(e),
    decreases n, 2int, 0int,
{
    proof {
        assert(n@.body == nms(n.body@));
    }
    match emit_children(&n.body) {
        Err(e) => {
            return Err(e);
        },
        Ok(parts) => {
            let ghost ts = emit_each(nms(n.body@))->Ok_0;
            let fmt = braces_exec(parts.len());
            let args = cat_comma(&parts, Ghost(ts));
            let mut s: String = "println!(\"".to_owned();
            s.append(fmt.as_str());
            s.append("\",");
            s.append(args.as_str());
            s.append(");CljVal::CljNil");
            return Ok(s);
        },
    }
}

/// Emits an equality comparison from an `=` node.
fn translate_equal(n: &SyntaxNode) -> (res: Result<String, ErrKind>)
    ensures
        equal_emit(n@) matches Ok(t) ==> res matches Ok(r) && r@ == t,
        equal_emit(n@) matches Err(e) ==> res == Result::<String, ErrKind>::Err(e),
    decreases n, 2int, 0int,
{
    proof {
        assert(n@.body == nms(n.body@));
    }
    if n.body.len() < 2 {
        return Err(ErrKind::EmitUnsupported);
    }
    proof {
        assert(n@.body[0] == nm(n.body@[0]));
        assert(n@.body[1] == nm(n.body@[1]));
    }
    match translate(&n.body[0]) {
        Err(e) => {
            return Err(e);
        },
        Ok(e0) => {
            match translate(&n.body[1]) {
                Err(e) => {
                    return Err(e);
                },
                Ok(e1) => {
                    let mut s: String = "( ".to_owned();
                    s.append(e0.as_str());
                    s.append(" == ");
                    s.append(e1.as_str());
                    s.append(" )");
                    return Ok(s);
                },
            }
        },
    }
}

/// Emits one canonical tree as target-language source text: a bound
/// identifier as itself, the well-known heads by their templates, any
/// other symbol head as a generic call, and a non-symbol head as its
/// literal-value constructor text.
pub fn translate(n: &SyntaxNode) -> (res: Result<String, ErrKind>)
    ensures
        emit_spec(n@) matches Ok(t) ==> res matches Ok(r) && r@ == t,
        emit_spec(n@) matches Err(e) ==> res == Result::<String, ErrKind>::Err(e),
    decreases n, 3int, 0int,
{
    if n.is_in_context(&n.this) {
        match &n.this {
            AstVal::AstSymbol(s) => {
                return Ok(s.clone());
            },
            _ => {
                return Err(ErrKind::EmitUnsupported);
            },
        }
    }
    match &n.this {
        AstVal::AstSymbol(t) => {
            let fn_s: String = "fn".to_owned();
            if *t == fn_s {
                return translate_fn(n);
            }
            let let_s: String = "let".to_owned();
            if *t == let_s {
                return translate_let(n);
            }
            let if_s: String = "if".to_owned();
            if *t == if_s {
                return translate_if(n);
            }
            let do_s: String = "do".to_owned();
            if *t == do_s {
                return translate_do(n);
            }
            let println_s: String = "println".to_owned();
            if *t == println_s {
                return translate_println(n);
            }
            let eq_s: String = "=".to_owned();
            if *t == eq_s {
                return translate_equal(n);
            }
            return translate_call(n);
        },
        AstVal::AstNil => {
            return Ok("CljVal::CljNil".to_owned());
        },
        AstVal::AstBool(b) => {
            let mut s: String = "CljVal::CljBool(".to_owned();
            if *b {
                s.append("true");
            } else {
                s.append("false");
            }
            s.append(")");
            return Ok(s);
        },
        AstVal::AstInt(i) => {
            let ds = i32_dec_chars(*i);
            let dt = string_of(&ds);
            let mut s: String = "CljVal::CljInt(".to_owned();
            s.append(dt.as_str());
            s.append(")");
            return Ok(s);
        },
        AstVal::AstFloat(tok) => {
            let mut s: String = "CljVal::CljFloat(".to_owned();
            s.append(tok.as_str());
            s.append(")");
            return Ok(s);
        },
        AstVal::AstString(st) => {
            let mut s: String = "CljVal::CljString(\"".to_owned();
            s.append(st.as_str());
            s.append("\".to_string())");
            return Ok(s);
        },
        _ => {
            return Err(ErrKind::EmitUnsupported);
        },
    }
}

} // verus!
