//! A small JSON codec for plans, reports and result envelopes, written
//! for one canonical, pretty-printed form: the printer is pinned to a
//! spec-level rendering, the parser to a spec-level grammar, and the
//! two are proved inverse, so a serialized plan always reads back as an
//! equal plan.

use vstd::prelude::*;

use crate::strutil::{push_char, str_chars};

verus! {

/// The escaped rendering of one character inside a JSON string:
/// quotes, backslashes, newlines, carriage returns and tabs take a
/// two-character escape; everything else stands for itself.
pub open spec fn esc_char(c: char) -> Seq<char> {
    if c == '"' {
        seq!['\\', '"']
    } else if c == '\\' {
        seq!['\\', '\\']
    } else if c == '\n' {
        seq!['\\', 'n']
    } else if c == '\r' {
        seq!['\\', 'r']
    } else if c == '\t' {
        seq!['\\', 't']
    } else {
        seq![c]
    }
}

/// The escaped rendering of a whole string body.
pub open spec fn esc_str(s: Seq<char>) -> Seq<char>
    decreases s.len(),
{
    if s.len() == 0 {
        Seq::empty()
    } else {
        esc_char(s[0]) + esc_str(s.drop_first())
    }
}

/// Escaping distributes over taking one more character at the end.
pub proof fn lemma_esc_str_snoc(s: Seq<char>, i: int)
    requires
        0 <= i < s.len(),
    ensures
        esc_str(s.subrange(0, i + 1)) == esc_str(s.subrange(0, i)) + esc_char(s[i]),
    decreases i,
{
    let a = s.subrange(0, i + 1);
    let b = s.subrange(0, i);
    if i == 0 {
        assert(a =~= seq![s[0]]);
        assert(b =~= Seq::<char>::empty());
        assert(a.drop_first() =~= Seq::<char>::empty());
        assert(a[0] == s[0]);
        assert(esc_str(a) == esc_char(s[0]) + esc_str(a.drop_first()));
        assert(esc_char(s[0]) + Seq::<char>::empty() =~= esc_char(s[0]));
        assert(esc_str(b) + esc_char(s[0]) =~= esc_char(s[0]));
    } else {
        let t = s.drop_first();
        lemma_esc_str_snoc(t, i - 1);
        assert(a.drop_first() =~= t.subrange(0, i));
        assert(b.drop_first() =~= t.subrange(0, i - 1));
        assert(a[0] == s[0] && b[0] == s[0]);
        assert(esc_str(a) == esc_char(s[0]) + esc_str(t.subrange(0, i)));
        assert(esc_str(b) == esc_char(s[0]) + esc_str(t.subrange(0, i - 1)));
        assert(t[i - 1] == s[i]);
        assert(esc_str(t.subrange(0, i)) == esc_str(t.subrange(0, i - 1)) + esc_char(s[i]));
        assert((esc_char(s[0]) + esc_str(t.subrange(0, i - 1))) + esc_char(s[i]) =~= esc_char(
            s[0],
        ) + (esc_str(t.subrange(0, i - 1)) + esc_char(s[i])));
    }
}

/// The printed form of a JSON string: quoted and escaped.
pub open spec fn js(s: Seq<char>) -> Seq<char> {
    seq!['"'] + esc_str(s) + seq!['"']
}

/// Appends the printed form of a JSON string.
pub fn append_json_string(out: &mut String, s: &str)
    ensures
        final(out)@ == old(out)@ + js(s@),
{
    let ghost start = out@;
    push_char(out, '"');
    let chars = str_chars(s);
    let n = chars.len();
    let mut i: usize = 0;
    proof {
        assert(s@.subrange(0, 0) =~= Seq::<char>::empty());
        assert(out@ =~= start + seq!['"'] + esc_str(s@.subrange(0, 0)));
    }
    while i < n
        invariant
            chars@ == s@,
            n == s@.len(),
            i <= n,
            out@ == start + seq!['"'] + esc_str(s@.subrange(0, i as int)),
        decreases n - i,
    {
        let c = chars[i];
        if c == '"' {
            push_char(out, '\\');
            push_char(out, '"');
        } else if c == '\\' {
            push_char(out, '\\');
            push_char(out, '\\');
        } else if c == '\n' {
            push_char(out, '\\');
            push_char(out, 'n');
        } else if c == '\r' {
            push_char(out, '\\');
            push_char(out, 'r');
        } else if c == '\t' {
            push_char(out, '\\');
            push_char(out, 't');
        } else {
            push_char(out, c);
        }
        proof {
            assert(c == s@[i as int]);
            assert(out@ =~= (start + seq!['"'] + esc_str(s@.subrange(0, i as int))) + esc_char(c));
            lemma_esc_str_snoc(s@, i as int);
            assert((start + seq!['"'] + esc_str(s@.subrange(0, i as int))) + esc_char(c) =~= start
                + seq!['"'] + esc_str(s@.subrange(0, i + 1)));
        }
        i = i + 1;
    }
    push_char(out, '"');
    proof {
        assert(s@.subrange(0, n as int) =~= s@);
        assert(out@ =~= start + js(s@));
    }
}

/// The character an escape code stands for, if the code is recognized.
pub open spec fn unesc_char(c: char) -> Option<char> {
    if c == '"' {
        Some('"')
    } else if c == '\\' {
        Some('\\')
    } else if c == 'n' {
        Some('\n')
    } else if c == 'r' {
        Some('\r')
    } else if c == 't' {
        Some('\t')
    } else {
        None
    }
}

/// Parses the body of a JSON string from position `i` up to and
/// including the closing quote; yields the unescaped body and the
/// position after the quote.
pub open spec fn parse_str_body(s: Seq<char>, i: int) -> Option<(Seq<char>, int)>
    decreases s.len() - i,
{
    if i < 0 || i >= s.len() {
        None
    } else if s[i] == '"' {
        Some((Seq::empty(), i + 1))
    } else if s[i] == '\\' {
        if i + 1 >= s.len() {
            None
        } else {
            match unesc_char(s[i + 1]) {
                Some(c) => match parse_str_body(s, i + 2) {
                    Some((rest, j)) => Some((seq![c] + rest, j)),
                    None => None,
                },
                None => None,
            }
        }
    } else {
        match parse_str_body(s, i + 1) {
            Some((rest, j)) => Some((seq![s[i]] + rest, j)),
            None => None,
        }
    }
}

/// Parses a complete JSON string (opening quote, body, closing quote).
pub open spec fn parse_string(s: Seq<char>, i: int) -> Option<(Seq<char>, int)> {
    if 0 <= i < s.len() && s[i] == '"' {
        parse_str_body(s, i + 1)
    } else {
        None
    }
}

/// Parsing the body inverts escaping: after any prefix, an escaped body
/// followed by its closing quote reads back exactly.
proof fn lemma_parse_body_of_esc(x: Seq<char>, pre: Seq<char>, post: Seq<char>)
    ensures
        parse_str_body(pre + esc_str(x) + seq!['"'] + post, pre.len() as int) == Some(
            (x, pre.len() + esc_str(x).len() + 1 as int),
        ),
    decreases x.len(),
{
    let v = pre + esc_str(x) + seq!['"'] + post;
    if x.len() == 0 {
        assert(esc_str(x) =~= Seq::<char>::empty());
        assert(v[pre.len() as int] == '"');
    } else {
        let c = x[0];
        let rest = x.drop_first();
        assert(esc_str(x) == esc_char(c) + esc_str(rest));
        let pre2 = pre + esc_char(c);
        assert(v =~= pre2 + esc_str(rest) + seq!['"'] + post);
        lemma_parse_body_of_esc(rest, pre2, post);
        if c == '"' || c == '\\' || c == '\n' || c == '\r' || c == '\t' {
            assert(esc_char(c).len() == 2);
            assert(v[pre.len() as int] == esc_char(c)[0]);
            assert(v[pre.len() as int + 1] == esc_char(c)[1]);
            assert(esc_char(c)[0] == '\\');
            assert(unesc_char(esc_char(c)[1]) == Some(c));
            assert(parse_str_body(v, pre.len() as int) == Some(
                (seq![c] + rest, pre.len() as int + esc_str(x).len() + 1),
            ));
            assert(seq![c] + rest =~= x);
        } else {
            assert(esc_char(c) =~= seq![c]);
            assert(v[pre.len() as int] == c);
            assert(c != '"' && c != '\\');
            assert(parse_str_body(v, pre.len() as int) == Some(
                (seq![c] + rest, pre.len() as int + esc_str(x).len() + 1),
            ));
            assert(seq![c] + rest =~= x);
        }
    }
}

/// Parsing inverts printing for JSON strings, after any prefix and
/// before any continuation.
pub proof fn lemma_parse_string_of_js(x: Seq<char>, pre: Seq<char>, post: Seq<char>)
    ensures
        parse_string(pre + js(x) + post, pre.len() as int) == Some(
            (x, pre.len() as int + js(x).len()),
        ),
{
    let v = pre + js(x) + post;
    let pre2 = pre + seq!['"'];
    assert(v =~= pre2 + esc_str(x) + seq!['"'] + post);
    lemma_parse_body_of_esc(x, pre2, post);
    assert(v[pre.len() as int] == '"');
}

/// Parses a complete JSON string starting at `i`.
pub fn parse_string_exec(v: &Vec<char>, i: usize) -> (r: Option<(String, usize)>)
    ensures
        match r {
            Some((s, j)) => parse_string(v@, i as int) == Some((s@, j as int)) && i < j <= v@.len(),
            None => parse_string(v@, i as int) is None,
        },
{
    if i >= v.len() || v[i] != '"' {
        return None;
    }
    let mut out = String::new();
    let mut k: usize = i + 1;
    loop
        invariant
            i < k <= v@.len(),
            i < v@.len(),
            v@[i as int] == '"',
            parse_str_body(v@, i + 1) == match parse_str_body(v@, k as int) {
                Some((rest, j)) => Some((out@ + rest, j)),
                None => None::<(Seq<char>, int)>,
            },
        decreases v@.len() - k,
    {
        if k >= v.len() {
            return None;
        }
        let c = v[k];
        if c == '"' {
            proof {
                assert(parse_str_body(v@, k as int) == Some(
                    (Seq::<char>::empty(), k + 1),
                ));
                assert(out@ + Seq::<char>::empty() =~= out@);
            }
            return Some((out, k + 1));
        }
        if c == '\\' {
            if k + 1 >= v.len() {
                return None;
            }
            let e = v[k + 1];
            let u: Option<char> = if e == '"' {
                Some('"')
            } else if e == '\\' {
                Some('\\')
            } else if e == 'n' {
                Some('\n')
            } else if e == 'r' {
                Some('\r')
            } else if e == 't' {
                Some('\t')
            } else {
                None
            };
            assert(u == unesc_char(v@[k + 1]));
            match u {
                Some(d) => {
                    let ghost out0 = out@;
                    push_char(&mut out, d);
                    proof {
                        assert(forall|rest: Seq<char>|
                            out0 + (seq![d] + rest) =~= (out0.push(d)) + rest);
                    }
                    k = k + 2;
                },
                None => {
                    return None;
                },
            }
        } else {
            let ghost out0 = out@;
            push_char(&mut out, c);
            proof {
                assert(forall|rest: Seq<char>| out0 + (seq![c] + rest) =~= (out0.push(c)) + rest);
            }
            k = k + 1;
        }
    }
}

/// The literal occurs in `s` at position `i`.
pub open spec fn lit_at(s: Seq<char>, i: int, lit: Seq<char>) -> bool {
    0 <= i && i + lit.len() <= s.len() && s.subrange(i, i + lit.len()) == lit
}

/// Consumes an expected literal: the position after it, or nothing.
pub open spec fn expect(s: Seq<char>, i: int, lit: Seq<char>) -> Option<int> {
    if lit_at(s, i, lit) {
        Some(i + lit.len())
    } else {
        None
    }
}

/// Concatenation of character sequences is associative.
pub proof fn seq_assoc(a: Seq<char>, b: Seq<char>, c: Seq<char>)
    ensures
        a + b + c == a + (b + c),
{
    assert(a + b + c =~= a + (b + c));
}

/// A literal placed after any prefix is consumed exactly.
pub proof fn lemma_expect_of_lit(pre: Seq<char>, lit: Seq<char>, post: Seq<char>)
    ensures
        expect(pre + lit + post, pre.len() as int, lit) == Some(pre.len() as int + lit.len()),
{
    assert((pre + lit + post).subrange(pre.len() as int, pre.len() as int + lit.len()) =~= lit);
}

/// The JSON name of an operation.
pub open spec fn op_name(o: crate::plan::Operation) -> Seq<char> {
    match o {
        crate::plan::Operation::Add => "add"@,
        crate::plan::Operation::Update => "update"@,
        crate::plan::Operation::Remove => "remove"@,
    }
}

/// The JSON name of a file action.
pub open spec fn action_name(a: crate::plan::FileAction) -> Seq<char> {
    match a {
        crate::plan::FileAction::Create => "create"@,
        crate::plan::FileAction::Modify => "modify"@,
        crate::plan::FileAction::Delete => "delete"@,
    }
}

/// The JSON name of a mutation strategy.
pub open spec fn strategy_name(t: crate::plan::MutationStrategy) -> Seq<char> {
    match t {
        crate::plan::MutationStrategy::WriteFile => "write_file"@,
        crate::plan::MutationStrategy::AppendExport => "append_export"@,
        crate::plan::MutationStrategy::InsertUse => "insert_use"@,
        crate::plan::MutationStrategy::ReplaceSection => "replace_section"@,
        crate::plan::MutationStrategy::DeleteFile => "delete_file"@,
    }
}

/// Parses an operation name.
pub open spec fn parse_op(s: Seq<char>, i: int) -> Option<(crate::plan::Operation, int)> {
    match parse_string(s, i) {
        Some((x, j)) => {
            if x == "add"@ {
                Some((crate::plan::Operation::Add, j))
            } else if x == "update"@ {
                Some((crate::plan::Operation::Update, j))
            } else if x == "remove"@ {
                Some((crate::plan::Operation::Remove, j))
            } else {
                None
            }
        },
        None => None,
    }
}

/// Parses a file-action name.
pub open spec fn parse_action(s: Seq<char>, i: int) -> Option<(crate::plan::FileAction, int)> {
    match parse_string(s, i) {
        Some((x, j)) => {
            if x == "create"@ {
                Some((crate::plan::FileAction::Create, j))
            } else if x == "modify"@ {
                Some((crate::plan::FileAction::Modify, j))
            } else if x == "delete"@ {
                Some((crate::plan::FileAction::Delete, j))
            } else {
                None
            }
        },
        None => None,
    }
}

/// Parses a strategy name.
pub open spec fn parse_strategy(s: Seq<char>, i: int) -> Option<
    (crate::plan::MutationStrategy, int),
> {
    match parse_string(s, i) {
        Some((x, j)) => {
            if x == "write_file"@ {
                Some((crate::plan::MutationStrategy::WriteFile, j))
            } else if x == "append_export"@ {
                Some((crate::plan::MutationStrategy::AppendExport, j))
            } else if x == "insert_use"@ {
                Some((crate::plan::MutationStrategy::InsertUse, j))
            } else if x == "replace_section"@ {
                Some((crate::plan::MutationStrategy::ReplaceSection, j))
            } else if x == "delete_file"@ {
                Some((crate::plan::MutationStrategy::DeleteFile, j))
            } else {
                None
            }
        },
        None => None,
    }
}

/// The printed names of distinct operations differ.
proof fn lemma_names_distinct()
    ensures
        "add"@ != "update"@ && "add"@ != "remove"@ && "update"@ != "remove"@,
        "create"@ != "modify"@ && "create"@ != "delete"@ && "modify"@ != "delete"@,
        "write_file"@ != "append_export"@ && "write_file"@ != "insert_use"@ && "write_file"@
            != "replace_section"@ && "write_file"@ != "delete_file"@,
        "append_export"@ != "insert_use"@ && "append_export"@ != "replace_section"@
            && "append_export"@ != "delete_file"@,
        "insert_use"@ != "replace_section"@ && "insert_use"@ != "delete_file"@,
        "replace_section"@ != "delete_file"@,
{
    reveal_strlit("add");
    reveal_strlit("update");
    reveal_strlit("remove");
    reveal_strlit("create");
    reveal_strlit("modify");
    reveal_strlit("delete");
    reveal_strlit("write_file");
    reveal_strlit("append_export");
    reveal_strlit("insert_use");
    reveal_strlit("replace_section");
    reveal_strlit("delete_file");
    assert("update"@[0] != "remove"@[0]);
    assert("create"@[0] != "modify"@[0]);
    assert("create"@[0] != "delete"@[0]);
    assert("modify"@[0] != "delete"@[0]);
    assert("write_file"@[0] != "append_export"@[0]);
    assert("write_file"@[0] != "insert_use"@[0]);
    assert("write_file"@[0] != "replace_section"@[0]);
    assert("write_file"@[0] != "delete_file"@[0]);
    assert("append_export"@[0] != "insert_use"@[0]);
    assert("append_export"@[0] != "replace_section"@[0]);
    assert("append_export"@[0] != "delete_file"@[0]);
    assert("insert_use"@[0] != "replace_section"@[0]);
    assert("insert_use"@[0] != "delete_file"@[0]);
    assert("replace_section"@[0] != "delete_file"@[0]);
}

/// Parsing inverts printing for operation names.
proof fn lemma_parse_op_of_print(o: crate::plan::Operation, pre: Seq<char>, post: Seq<char>)
    ensures
        parse_op(pre + js(op_name(o)) + post, pre.len() as int) == Some(
            (o, pre.len() as int + js(op_name(o)).len()),
        ),
{
    lemma_parse_string_of_js(op_name(o), pre, post);
    lemma_names_distinct();
}

/// Parsing inverts printing for file-action names.
proof fn lemma_parse_action_of_print(a: crate::plan::FileAction, pre: Seq<char>, post: Seq<char>)
    ensures
        parse_action(pre + js(action_name(a)) + post, pre.len() as int) == Some(
            (a, pre.len() as int + js(action_name(a)).len()),
        ),
{
    lemma_parse_string_of_js(action_name(a), pre, post);
    lemma_names_distinct();
}

/// Parsing inverts printing for strategy names.
proof fn lemma_parse_strategy_of_print(
    t: crate::plan::MutationStrategy,
    pre: Seq<char>,
    post: Seq<char>,
)
    ensures
        parse_strategy(pre + js(strategy_name(t)) + post, pre.len() as int) == Some(
            (t, pre.len() as int + js(strategy_name(t)).len()),
        ),
{
    lemma_parse_string_of_js(strategy_name(t), pre, post);
    lemma_names_distinct();
}

/// The printed form of one file mutation, as an array element.
pub open spec fn print_mutation(m: crate::plan::MutationModel) -> Seq<char> {
    "    {\n      \"action\": "@ + js(action_name(m.action)) + ",\n      \"file_path\": "@ + js(
        m.file_path,
    ) + ",\n      \"strategy\": "@ + js(strategy_name(m.strategy)) + ",\n      \"content\": "@
        + js(m.content) + ",\n      \"description\": "@ + js(m.description) + "\n    }"@
}

/// Parses one file mutation.
pub open spec fn parse_mutation(s: Seq<char>, i: int) -> Option<(crate::plan::MutationModel, int)> {
    match expect(s, i, "    {\n      \"action\": "@) {
        None => None,
        Some(j0) => match parse_action(s, j0) {
            None => None,
            Some((action, j1)) => match expect(s, j1, ",\n      \"file_path\": "@) {
                None => None,
                Some(j2) => match parse_string(s, j2) {
                    None => None,
                    Some((file_path, j3)) => match expect(s, j3, ",\n      \"strategy\": "@) {
                        None => None,
                        Some(j4) => match parse_strategy(s, j4) {
                            None => None,
                            Some((strategy, j5)) => match expect(s, j5, ",\n      \"content\": "@) {
                                None => None,
                                Some(j6) => match parse_string(s, j6) {
                                    None => None,
                                    Some((content, j7)) => match expect(
                                        s,
                                        j7,
                                        ",\n      \"description\": "@,
                                    ) {
                                        None => None,
                                        Some(j8) => match parse_string(s, j8) {
                                            None => None,
                                            Some((description, j9)) => match expect(
                                                s,
                                                j9,
                                                "\n    }"@,
                                            ) {
                                                None => None,
                                                Some(j10) => Some(
                                                    (
                                                        crate::plan::MutationModel {
                                                            action,
                                                            file_path,
                                                            strategy,
                                                            content,
                                                            description,
                                                        },
                                                        j10,
                                                    ),
                                                ),
                                            },
                                        },
                                    },
                                },
                            },
                        },
                    },
                },
            },
        },
    }
}

/// Parsing inverts printing for one mutation.
#[verifier::rlimit(100)]
#[verifier::spinoff_prover]
proof fn lemma_parse_mutation_of_print(
    m: crate::plan::MutationModel,
    pre: Seq<char>,
    post: Seq<char>,
)
    ensures
        parse_mutation(pre + print_mutation(m) + post, pre.len() as int) == Some(
            (m, pre.len() as int + print_mutation(m).len()),
        ),
{
    let l0 = "    {\n      \"action\": "@;
    let l1 = ",\n      \"file_path\": "@;
    let l2 = ",\n      \"strategy\": "@;
    let l3 = ",\n      \"content\": "@;
    let l4 = ",\n      \"description\": "@;
    let l5 = "\n    }"@;
    let a = js(action_name(m.action));
    let f = js(m.file_path);
    let t = js(strategy_name(m.strategy));
    let c = js(m.content);
    let d = js(m.description);
    let v = pre + print_mutation(m) + post;
    let t9 = l5 + post;
    let t8 = d + t9;
    let t7 = l4 + t8;
    let t6 = c + t7;
    let t5 = l3 + t6;
    let t4 = t + t5;
    let t3 = l2 + t4;
    let t2 = f + t3;
    let t1 = l1 + t2;
    assert(v =~= pre + l0 + (a + t1));
    lemma_expect_of_lit(pre, l0, a + t1);
    let p1 = pre + l0;
    assert(v =~= p1 + a + t1);
    lemma_parse_action_of_print(m.action, p1, t1);
    let p2 = p1 + a;
    assert(v =~= p2 + l1 + t2);
    lemma_expect_of_lit(p2, l1, t2);
    let p3 = p2 + l1;
    assert(v =~= p3 + f + t3);
    lemma_parse_string_of_js(m.file_path, p3, t3);
    let p4 = p3 + f;
    assert(v =~= p4 + l2 + t4);
    lemma_expect_of_lit(p4, l2, t4);
    let p5 = p4 + l2;
    assert(v =~= p5 + t + t5);
    lemma_parse_strategy_of_print(m.strategy, p5, t5);
    let p6 = p5 + t;
    assert(v =~= p6 + l3 + t6);
    lemma_expect_of_lit(p6, l3, t6);
    let p7 = p6 + l3;
    assert(v =~= p7 + c + t7);
    lemma_parse_string_of_js(m.content, p7, t7);
    let p8 = p7 + c;
    assert(v =~= p8 + l4 + t8);
    lemma_expect_of_lit(p8, l4, t8);
    let p9 = p8 + l4;
    assert(v =~= p9 + d + t9);
    lemma_parse_string_of_js(m.description, p9, t9);
    let p10 = p9 + d;
    assert(v =~= p10 + l5 + post);
    lemma_expect_of_lit(p10, l5, post);
}

/// The printed form of one conflict, as an array element.
pub open spec fn print_conflict(c: crate::plan::ConflictModel) -> Seq<char> {
    "    {\n      \"file_path\": "@ + js(c.file_path) + ",\n      \"reason\": "@ + js(c.reason)
        + "\n    }"@
}

/// Parses one conflict.
pub open spec fn parse_conflict(s: Seq<char>, i: int) -> Option<(crate::plan::ConflictModel, int)> {
    match expect(s, i, "    {\n      \"file_path\": "@) {
        None => None,
        Some(j0) => match parse_string(s, j0) {
            None => None,
            Some((file_path, j1)) => match expect(s, j1, ",\n      \"reason\": "@) {
                None => None,
                Some(j2) => match parse_string(s, j2) {
                    None => None,
                    Some((reason, j3)) => match expect(s, j3, "\n    }"@) {
                        None => None,
                        Some(j4) => Some(
                            (crate::plan::ConflictModel { file_path, reason }, j4),
                        ),
                    },
                },
            },
        },
    }
}

/// Parsing inverts printing for one conflict.
#[verifier::rlimit(100)]
#[verifier::spinoff_prover]
proof fn lemma_parse_conflict_of_print(
    c: crate::plan::ConflictModel,
    pre: Seq<char>,
    post: Seq<char>,
)
    ensures
        parse_conflict(pre + print_conflict(c) + post, pre.len() as int) == Some(
            (c, pre.len() as int + print_conflict(c).len()),
        ),
{
    let l0 = "    {\n      \"file_path\": "@;
    let l1 = ",\n      \"reason\": "@;
    let l2 = "\n    }"@;
    let f = js(c.file_path);
    let r = js(c.reason);
    let v = pre + print_conflict(c) + post;
    let t3 = l2 + post;
    let t2 = r + t3;
    let t1 = l1 + t2;
    assert(v =~= pre + l0 + (f + t1));
    lemma_expect_of_lit(pre, l0, f + t1);
    let p1 = pre + l0;
    assert(v =~= p1 + f + t1);
    lemma_parse_string_of_js(c.file_path, p1, t1);
    let p2 = p1 + f;
    assert(v =~= p2 + l1 + t2);
    lemma_expect_of_lit(p2, l1, t2);
    let p3 = p2 + l1;
    assert(v =~= p3 + r + t3);
    lemma_parse_string_of_js(c.reason, p3, t3);
    let p4 = p3 + r;
    assert(v =~= p4 + l2 + post);
    lemma_expect_of_lit(p4, l2, post);
}

/// The printed form of one provenance action, as an array element.
pub open spec fn print_prov(a: crate::plan::ProvenanceModel) -> Seq<char> {
    "    {\n      \"file_path\": "@ + js(a.file_path) + ",\n      \"source\": "@ + js(a.source)
        + ",\n      \"license\": "@ + js(a.license) + ",\n      \"modifications\": "@ + js(
        a.modifications,
    ) + "\n    }"@
}

/// Parses one provenance action.
pub open spec fn parse_prov(s: Seq<char>, i: int) -> Option<(crate::plan::ProvenanceModel, int)> {
    match expect(s, i, "    {\n      \"file_path\": "@) {
        None => None,
        Some(j0) => match parse_string(s, j0) {
            None => None,
            Some((file_path, j1)) => match expect(s, j1, ",\n      \"source\": "@) {
                None => None,
                Some(j2) => match parse_string(s, j2) {
                    None => None,
                    Some((source, j3)) => match expect(s, j3, ",\n      \"license\": "@) {
                        None => None,
                        Some(j4) => match parse_string(s, j4) {
                            None => None,
                            Some((license, j5)) => match expect(
                                s,
                                j5,
                                ",\n      \"modifications\": "@,
                            ) {
                                None => None,
                                Some(j6) => match parse_string(s, j6) {
                                    None => None,
                                    Some((modifications, j7)) => match expect(s, j7, "\n    }"@) {
                                        None => None,
                                        Some(j8) => Some(
                                            (
                                                crate::plan::ProvenanceModel {
                                                    file_path,
                                                    source,
                                                    license,
                                                    modifications,
                                                },
                                                j8,
                                            ),
                                        ),
                                    },
                                },
                            },
                        },
                    },
                },
            },
        },
    }
}

/// Parsing inverts printing for one provenance action.
#[verifier::rlimit(100)]
#[verifier::spinoff_prover]
proof fn lemma_parse_prov_of_print(
    a: crate::plan::ProvenanceModel,
    pre: Seq<char>,
    post: Seq<char>,
)
    ensures
        parse_prov(pre + print_prov(a) + post, pre.len() as int) == Some(
            (a, pre.len() as int + print_prov(a).len()),
        ),
{
    let l0 = "    {\n      \"file_path\": "@;
    let l1 = ",\n      \"source\": "@;
    let l2 = ",\n      \"license\": "@;
    let l3 = ",\n      \"modifications\": "@;
    let l4 = "\n    }"@;
    let f = js(a.file_path);
    let sc = js(a.source);
    let lc = js(a.license);
    let mo = js(a.modifications);
    let v = pre + print_prov(a) + post;
    let t7 = l4 + post;
    let t6 = mo + t7;
    let t5 = l3 + t6;
    let t4 = lc + t5;
    let t3 = l2 + t4;
    let t2 = sc + t3;
    let t1 = l1 + t2;
    assert(v =~= pre + l0 + (f + t1));
    lemma_expect_of_lit(pre, l0, f + t1);
    let p1 = pre + l0;
    assert(v =~= p1 + f + t1);
    lemma_parse_string_of_js(a.file_path, p1, t1);
    let p2 = p1 + f;
    assert(v =~= p2 + l1 + t2);
    lemma_expect_of_lit(p2, l1, t2);
    let p3 = p2 + l1;
    assert(v =~= p3 + sc + t3);
    lemma_parse_string_of_js(a.source, p3, t3);
    let p4 = p3 + sc;
    assert(v =~= p4 + l2 + t4);
    lemma_expect_of_lit(p4, l2, t4);
    let p5 = p4 + l2;
    assert(v =~= p5 + lc + t5);
    lemma_parse_string_of_js(a.license, p5, t5);
    let p6 = p5 + lc;
    assert(v =~= p6 + l3 + t6);
    lemma_expect_of_lit(p6, l3, t6);
    let p7 = p6 + l3;
    assert(v =~= p7 + mo + t7);
    lemma_parse_string_of_js(a.modifications, p7, t7);
    let p8 = p7 + mo;
    assert(v =~= p8 + l4 + post);
    lemma_expect_of_lit(p8, l4, post);
}

/// The printed form of one checksum entry, as an object member.
pub open spec fn print_sum(e: (Seq<char>, Seq<char>)) -> Seq<char> {
    "    "@ + js(e.0) + ": "@ + js(e.1)
}

/// Parses one checksum entry.
pub open spec fn parse_sum(s: Seq<char>, i: int) -> Option<((Seq<char>, Seq<char>), int)> {
    match expect(s, i, "    "@) {
        None => None,
        Some(j0) => match parse_string(s, j0) {
            None => None,
            Some((key, j1)) => match expect(s, j1, ": "@) {
                None => None,
                Some(j2) => match parse_string(s, j2) {
                    None => None,
                    Some((val, j3)) => Some(((key, val), j3)),
                },
            },
        },
    }
}

/// Parsing inverts printing for one checksum entry.
#[verifier::rlimit(100)]
#[verifier::spinoff_prover]
proof fn lemma_parse_sum_of_print(e: (Seq<char>, Seq<char>), pre: Seq<char>, post: Seq<char>)
    ensures
        parse_sum(pre + print_sum(e) + post, pre.len() as int) == Some(
            (e, pre.len() as int + print_sum(e).len()),
        ),
{
    let l0 = "    "@;
    let l1 = ": "@;
    let k = js(e.0);
    let w = js(e.1);
    let v = pre + print_sum(e) + post;
    let t2 = w + post;
    let t1 = l1 + t2;
    assert(v =~= pre + l0 + (k + t1));
    lemma_expect_of_lit(pre, l0, k + t1);
    let p1 = pre + l0;
    assert(v =~= p1 + k + t1);
    lemma_parse_string_of_js(e.0, p1, t1);
    let p2 = p1 + k;
    assert(v =~= p2 + l1 + t2);
    lemma_expect_of_lit(p2, l1, t2);
    let p3 = p2 + l1;
    assert(v =~= p3 + w + post);
    lemma_parse_string_of_js(e.1, p3, post);
}

/// The printed items of mutations, joined with separators.
pub open spec fn join_mutations(xs: Seq<crate::plan::MutationModel>) -> Seq<char>
    decreases xs.len(),
{
    if xs.len() == 0 {
        Seq::empty()
    } else if xs.len() == 1 {
        print_mutation(xs[0])
    } else {
        print_mutation(xs[0]) + ",\n"@ + join_mutations(xs.drop_first())
    }
}

/// The printed form of mutations.
pub open spec fn print_mutations(xs: Seq<crate::plan::MutationModel>) -> Seq<char> {
    if xs.len() == 0 {
        "[]"@
    } else {
        "[\n"@ + join_mutations(xs) + "\n  ]"@
    }
}

/// Parses the items of mutations up to and including the closing token.
pub open spec fn parse_mutations_items(s: Seq<char>, i: int, fuel: nat) -> Option<
    (Seq<crate::plan::MutationModel>, int),
>
    decreases fuel,
{
    if fuel == 0 {
        None
    } else {
        match parse_mutation(s, i) {
            None => None,
            Some((x, j)) => match expect(s, j, ",\n"@) {
                Some(j2) => match parse_mutations_items(s, j2, (fuel - 1) as nat) {
                    Some((rest, j3)) => Some((seq![x] + rest, j3)),
                    None => None,
                },
                None => match expect(s, j, "\n  ]"@) {
                    Some(j2) => Some((seq![x], j2)),
                    None => None,
                },
            },
        }
    }
}

/// Parses mutations.
pub open spec fn parse_mutations(s: Seq<char>, i: int, fuel: nat) -> Option<(Seq<crate::plan::MutationModel>, int)> {
    match expect(s, i, "[]"@) {
        Some(j) => Some((Seq::empty(), j)),
        None => match expect(s, i, "[\n"@) {
            Some(j) => parse_mutations_items(s, j, fuel),
            None => None,
        },
    }
}

/// Parsing inverts printing for the items of mutations.
#[verifier::rlimit(100)]
#[verifier::spinoff_prover]
proof fn lemma_parse_mutations_items_of_print(
    xs: Seq<crate::plan::MutationModel>,
    pre: Seq<char>,
    post: Seq<char>,
    fuel: nat,
)
    requires
        xs.len() >= 1,
        fuel >= xs.len(),
    ensures
        parse_mutations_items(pre + (join_mutations(xs) + "\n  ]"@) + post, pre.len() as int, fuel)
            == Some(
            (xs, pre.len() as int + join_mutations(xs).len() + "\n  ]"@.len()),
        ),
    decreases xs.len(),
{
    let close = "\n  ]"@;
    let sep = ",\n"@;
    let v = pre + (join_mutations(xs) + close) + post;
    reveal_strlit("\n  ]");
    reveal_strlit(",\n");
    if xs.len() == 1 {
        assert(join_mutations(xs) == print_mutation(xs[0]));
        assert(v =~= pre + print_mutation(xs[0]) + (close + post));
        lemma_parse_mutation_of_print(xs[0], pre, close + post);
        let p1 = pre + print_mutation(xs[0]);
        assert(v[p1.len() as int] == close[0]);
        assert(close[0] == '\n');
        if lit_at(v, p1.len() as int, sep) {
            assert(v.subrange(p1.len() as int, p1.len() as int + 2)[0] == ',');
            assert(false);
        }
        assert(expect(v, p1.len() as int, sep) is None);
        assert(v =~= p1 + close + post);
        lemma_expect_of_lit(p1, close, post);
        assert(seq![xs[0]] =~= xs);
    } else {
        let rest = xs.drop_first();
        assert(join_mutations(xs) == print_mutation(xs[0]) + sep + join_mutations(rest));
        let t2 = join_mutations(rest) + close + post;
        assert(v =~= pre + print_mutation(xs[0]) + (sep + t2));
        lemma_parse_mutation_of_print(xs[0], pre, sep + t2);
        let p1 = pre + print_mutation(xs[0]);
        assert(v =~= p1 + sep + t2);
        lemma_expect_of_lit(p1, sep, t2);
        let p2 = p1 + sep;
        assert(v =~= p2 + (join_mutations(rest) + close) + post);
        lemma_parse_mutations_items_of_print(rest, p2, post, (fuel - 1) as nat);
        assert(seq![xs[0]] + rest =~= xs);
    }
}

/// Parsing inverts printing for mutations.
#[verifier::rlimit(100)]
#[verifier::spinoff_prover]
proof fn lemma_parse_mutations_of_print(xs: Seq<crate::plan::MutationModel>, pre: Seq<char>, post: Seq<char>, fuel: nat)
    requires
        fuel >= xs.len(),
    ensures
        parse_mutations(pre + print_mutations(xs) + post, pre.len() as int, fuel) == Some(
            (xs, pre.len() as int + print_mutations(xs).len()),
        ),
{
    let v = pre + print_mutations(xs) + post;
    reveal_strlit("[]");
    reveal_strlit("[\n");
    if xs.len() == 0 {
        assert(v =~= pre + "[]"@ + post);
        lemma_expect_of_lit(pre, "[]"@, post);
        assert(xs =~= Seq::<crate::plan::MutationModel>::empty());
    } else {
        let close = "\n  ]"@;
        assert(print_mutations(xs) == "[\n"@ + join_mutations(xs) + close);
        assert(v[pre.len() as int + 1] == "[\n"@[1]);
        if lit_at(v, pre.len() as int, "[]"@) {
            assert(v.subrange(pre.len() as int, pre.len() as int + 2)[1] == "[]"@[1]);
            assert(false);
        }
        assert(expect(v, pre.len() as int, "[]"@) is None);
        let t1 = (join_mutations(xs) + close) + post;
        assert(v =~= pre + "[\n"@ + t1);
        lemma_expect_of_lit(pre, "[\n"@, t1);
        let p1 = pre + "[\n"@;
        assert(v =~= p1 + (join_mutations(xs) + close) + post);
        lemma_parse_mutations_items_of_print(xs, p1, post, fuel);
    }
}

/// The printed items of conflicts, joined with separators.
pub open spec fn join_conflicts(xs: Seq<crate::plan::ConflictModel>) -> Seq<char>
    decreases xs.len(),
{
    if xs.len() == 0 {
        Seq::empty()
    } else if xs.len() == 1 {
        print_conflict(xs[0])
    } else {
        print_conflict(xs[0]) + ",\n"@ + join_conflicts(xs.drop_first())
    }
}

/// The printed form of conflicts.
pub open spec fn print_conflicts(xs: Seq<crate::plan::ConflictModel>) -> Seq<char> {
    if xs.len() == 0 {
        "[]"@
    } else {
        "[\n"@ + join_conflicts(xs) + "\n  ]"@
    }
}

/// Parses the items of conflicts up to and including the closing token.
pub open spec fn parse_conflicts_items(s: Seq<char>, i: int, fuel: nat) -> Option<
    (Seq<crate::plan::ConflictModel>, int),
>
    decreases fuel,
{
    if fuel == 0 {
        None
    } else {
        match parse_conflict(s, i) {
            None => None,
            Some((x, j)) => match expect(s, j, ",\n"@) {
                Some(j2) => match parse_conflicts_items(s, j2, (fuel - 1) as nat) {
                    Some((rest, j3)) => Some((seq![x] + rest, j3)),
                    None => None,
                },
                None => match expect(s, j, "\n  ]"@) {
                    Some(j2) => Some((seq![x], j2)),
                    None => None,
                },
            },
        }
    }
}

/// Parses conflicts.
pub open spec fn parse_conflicts(s: Seq<char>, i: int, fuel: nat) -> Option<(Seq<crate::plan::ConflictModel>, int)> {
    match expect(s, i, "[]"@) {
        Some(j) => Some((Seq::empty(), j)),
        None => match expect(s, i, "[\n"@) {
            Some(j) => parse_conflicts_items(s, j, fuel),
            None => None,
        },
    }
}

/// Parsing inverts printing for the items of conflicts.
#[verifier::rlimit(100)]
#[verifier::spinoff_prover]
proof fn lemma_parse_conflicts_items_of_print(
    xs: Seq<crate::plan::ConflictModel>,
    pre: Seq<char>,
    post: Seq<char>,
    fuel: nat,
)
    requires
        xs.len() >= 1,
        fuel >= xs.len(),
    ensures
        parse_conflicts_items(pre + (join_conflicts(xs) + "\n  ]"@) + post, pre.len() as int, fuel)
            == Some(
            (xs, pre.len() as int + join_conflicts(xs).len() + "\n  ]"@.len()),
        ),
    decreases xs.len(),
{
    let close = "\n  ]"@;
    let sep = ",\n"@;
    let v = pre + (join_conflicts(xs) + close) + post;
    reveal_strlit("\n  ]");
    reveal_strlit(",\n");
    if xs.len() == 1 {
        assert(join_conflicts(xs) == print_conflict(xs[0]));
        assert(v =~= pre + print_conflict(xs[0]) + (close + post));
        lemma_parse_conflict_of_print(xs[0], pre, close + post);
        let p1 = pre + print_conflict(xs[0]);
        assert(v[p1.len() as int] == close[0]);
        assert(close[0] == '\n');
        if lit_at(v, p1.len() as int, sep) {
            assert(v.subrange(p1.len() as int, p1.len() as int + 2)[0] == ',');
            assert(false);
        }
        assert(expect(v, p1.len() as int, sep) is None);
        assert(v =~= p1 + close + post);
        lemma_expect_of_lit(p1, close, post);
        assert(seq![xs[0]] =~= xs);
    } else {
        let rest = xs.drop_first();
        assert(join_conflicts(xs) == print_conflict(xs[0]) + sep + join_conflicts(rest));
        let t2 = join_conflicts(rest) + close + post;
        assert(v =~= pre + print_conflict(xs[0]) + (sep + t2));
        lemma_parse_conflict_of_print(xs[0], pre, sep + t2);
        let p1 = pre + print_conflict(xs[0]);
        assert(v =~= p1 + sep + t2);
        lemma_expect_of_lit(p1, sep, t2);
        let p2 = p1 + sep;
        assert(v =~= p2 + (join_conflicts(rest) + close) + post);
        lemma_parse_conflicts_items_of_print(rest, p2, post, (fuel - 1) as nat);
        assert(seq![xs[0]] + rest =~= xs);
    }
}

/// Parsing inverts printing for conflicts.
#[verifier::rlimit(100)]
#[verifier::spinoff_prover]
proof fn lemma_parse_conflicts_of_print(xs: Seq<crate::plan::ConflictModel>, pre: Seq<char>, post: Seq<char>, fuel: nat)
    requires
        fuel >= xs.len(),
    ensures
        parse_conflicts(pre + print_conflicts(xs) + post, pre.len() as int, fuel) == Some(
            (xs, pre.len() as int + print_conflicts(xs).len()),
        ),
{
    let v = pre + print_conflicts(xs) + post;
    reveal_strlit("[]");
    reveal_strlit("[\n");
    if xs.len() == 0 {
        assert(v =~= pre + "[]"@ + post);
        lemma_expect_of_lit(pre, "[]"@, post);
        assert(xs =~= Seq::<crate::plan::ConflictModel>::empty());
    } else {
        let close = "\n  ]"@;
        assert(print_conflicts(xs) == "[\n"@ + join_conflicts(xs) + close);
        assert(v[pre.len() as int + 1] == "[\n"@[1]);
        if lit_at(v, pre.len() as int, "[]"@) {
            assert(v.subrange(pre.len() as int, pre.len() as int + 2)[1] == "[]"@[1]);
            assert(false);
        }
        assert(expect(v, pre.len() as int, "[]"@) is None);
        let t1 = (join_conflicts(xs) + close) + post;
        assert(v =~= pre + "[\n"@ + t1);
        lemma_expect_of_lit(pre, "[\n"@, t1);
        let p1 = pre + "[\n"@;
        assert(v =~= p1 + (join_conflicts(xs) + close) + post);
        lemma_parse_conflicts_items_of_print(xs, p1, post, fuel);
    }
}

/// The printed items of provs, joined with separators.
pub open spec fn join_provs(xs: Seq<crate::plan::ProvenanceModel>) -> Seq<char>
    decreases xs.len(),
{
    if xs.len() == 0 {
        Seq::empty()
    } else if xs.len() == 1 {
        print_prov(xs[0])
    } else {
        print_prov(xs[0]) + ",\n"@ + join_provs(xs.drop_first())
    }
}

/// The printed form of provs.
pub open spec fn print_provs(xs: Seq<crate::plan::ProvenanceModel>) -> Seq<char> {
    if xs.len() == 0 {
        "[]"@
    } else {
        "[\n"@ + join_provs(xs) + "\n  ]"@
    }
}

/// Parses the items of provs up to and including the closing token.
pub open spec fn parse_provs_items(s: Seq<char>, i: int, fuel: nat) -> Option<
    (Seq<crate::plan::ProvenanceModel>, int),
>
    decreases fuel,
{
    if fuel == 0 {
        None
    } else {
        match parse_prov(s, i) {
            None => None,
            Some((x, j)) => match expect(s, j, ",\n"@) {
                Some(j2) => match parse_provs_items(s, j2, (fuel - 1) as nat) {
                    Some((rest, j3)) => Some((seq![x] + rest, j3)),
                    None => None,
                },
                None => match expect(s, j, "\n  ]"@) {
                    Some(j2) => Some((seq![x], j2)),
                    None => None,
                },
            },
        }
    }
}

/// Parses provs.
pub open spec fn parse_provs(s: Seq<char>, i: int, fuel: nat) -> Option<(Seq<crate::plan::ProvenanceModel>, int)> {
    match expect(s, i, "[]"@) {
        Some(j) => Some((Seq::empty(), j)),
        None => match expect(s, i, "[\n"@) {
            Some(j) => parse_provs_items(s, j, fuel),
            None => None,
        },
    }
}

/// Parsing inverts printing for the items of provs.
#[verifier::rlimit(100)]
#[verifier::spinoff_prover]
proof fn lemma_parse_provs_items_of_print(
    xs: Seq<crate::plan::ProvenanceModel>,
    pre: Seq<char>,
    post: Seq<char>,
    fuel: nat,
)
    requires
        xs.len() >= 1,
        fuel >= xs.len(),
    ensures
        parse_provs_items(pre + (join_provs(xs) + "\n  ]"@) + post, pre.len() as int, fuel)
            == Some(
            (xs, pre.len() as int + join_provs(xs).len() + "\n  ]"@.len()),
        ),
    decreases xs.len(),
{
    let close = "\n  ]"@;
    let sep = ",\n"@;
    let v = pre + (join_provs(xs) + close) + post;
    reveal_strlit("\n  ]");
    reveal_strlit(",\n");
    if xs.len() == 1 {
        assert(join_provs(xs) == print_prov(xs[0]));
        assert(v =~= pre + print_prov(xs[0]) + (close + post));
        lemma_parse_prov_of_print(xs[0], pre, close + post);
        let p1 = pre + print_prov(xs[0]);
        assert(v[p1.len() as int] == close[0]);
        assert(close[0] == '\n');
        if lit_at(v, p1.len() as int, sep) {
            assert(v.subrange(p1.len() as int, p1.len() as int + 2)[0] == ',');
            assert(false);
        }
        assert(expect(v, p1.len() as int, sep) is None);
        assert(v =~= p1 + close + post);
        lemma_expect_of_lit(p1, close, post);
        assert(seq![xs[0]] =~= xs);
    } else {
        let rest = xs.drop_first();
        assert(join_provs(xs) == print_prov(xs[0]) + sep + join_provs(rest));
        let t2 = join_provs(rest) + close + post;
        assert(v =~= pre + print_prov(xs[0]) + (sep + t2));
        lemma_parse_prov_of_print(xs[0], pre, sep + t2);
        let p1 = pre + print_prov(xs[0]);
        assert(v =~= p1 + sep + t2);
        lemma_expect_of_lit(p1, sep, t2);
        let p2 = p1 + sep;
        assert(v =~= p2 + (join_provs(rest) + close) + post);
        lemma_parse_provs_items_of_print(rest, p2, post, (fuel - 1) as nat);
        assert(seq![xs[0]] + rest =~= xs);
    }
}

/// Parsing inverts printing for provs.
#[verifier::rlimit(100)]
#[verifier::spinoff_prover]
proof fn lemma_parse_provs_of_print(xs: Seq<crate::plan::ProvenanceModel>, pre: Seq<char>, post: Seq<char>, fuel: nat)
    requires
        fuel >= xs.len(),
    ensures
        parse_provs(pre + print_provs(xs) + post, pre.len() as int, fuel) == Some(
            (xs, pre.len() as int + print_provs(xs).len()),
        ),
{
    let v = pre + print_provs(xs) + post;
    reveal_strlit("[]");
    reveal_strlit("[\n");
    if xs.len() == 0 {
        assert(v =~= pre + "[]"@ + post);
        lemma_expect_of_lit(pre, "[]"@, post);
        assert(xs =~= Seq::<crate::plan::ProvenanceModel>::empty());
    } else {
        let close = "\n  ]"@;
        assert(print_provs(xs) == "[\n"@ + join_provs(xs) + close);
        assert(v[pre.len() as int + 1] == "[\n"@[1]);
        if lit_at(v, pre.len() as int, "[]"@) {
            assert(v.subrange(pre.len() as int, pre.len() as int + 2)[1] == "[]"@[1]);
            assert(false);
        }
        assert(expect(v, pre.len() as int, "[]"@) is None);
        let t1 = (join_provs(xs) + close) + post;
        assert(v =~= pre + "[\n"@ + t1);
        lemma_expect_of_lit(pre, "[\n"@, t1);
        let p1 = pre + "[\n"@;
        assert(v =~= p1 + (join_provs(xs) + close) + post);
        lemma_parse_provs_items_of_print(xs, p1, post, fuel);
    }
}

/// The printed items of sums, joined with separators.
pub open spec fn join_sums(xs: Seq<(Seq<char>, Seq<char>)>) -> Seq<char>
    decreases xs.len(),
{
    if xs.len() == 0 {
        Seq::empty()
    } else if xs.len() == 1 {
        print_sum(xs[0])
    } else {
        print_sum(xs[0]) + ",\n"@ + join_sums(xs.drop_first())
    }
}

/// The printed form of sums.
pub open spec fn print_sums(xs: Seq<(Seq<char>, Seq<char>)>) -> Seq<char> {
    if xs.len() == 0 {
        "{}"@
    } else {
        "{\n"@ + join_sums(xs) + "\n  }"@
    }
}

/// Parses the items of sums up to and including the closing token.
pub open spec fn parse_sums_items(s: Seq<char>, i: int, fuel: nat) -> Option<
    (Seq<(Seq<char>, Seq<char>)>, int),
>
    decreases fuel,
{
    if fuel == 0 {
        None
    } else {
        match parse_sum(s, i) {
            None => None,
            Some((x, j)) => match expect(s, j, ",\n"@) {
                Some(j2) => match parse_sums_items(s, j2, (fuel - 1) as nat) {
                    Some((rest, j3)) => Some((seq![x] + rest, j3)),
                    None => None,
                },
                None => match expect(s, j, "\n  }"@) {
                    Some(j2) => Some((seq![x], j2)),
                    None => None,
                },
            },
        }
    }
}

/// Parses sums.
pub open spec fn parse_sums(s: Seq<char>, i: int, fuel: nat) -> Option<(Seq<(Seq<char>, Seq<char>)>, int)> {
    match expect(s, i, "{}"@) {
        Some(j) => Some((Seq::empty(), j)),
        None => match expect(s, i, "{\n"@) {
            Some(j) => parse_sums_items(s, j, fuel),
            None => None,
        },
    }
}

/// Parsing inverts printing for the items of sums.
#[verifier::rlimit(100)]
#[verifier::spinoff_prover]
proof fn lemma_parse_sums_items_of_print(
    xs: Seq<(Seq<char>, Seq<char>)>,
    pre: Seq<char>,
    post: Seq<char>,
    fuel: nat,
)
    requires
        xs.len() >= 1,
        fuel >= xs.len(),
    ensures
        parse_sums_items(pre + (join_sums(xs) + "\n  }"@) + post, pre.len() as int, fuel)
            == Some(
            (xs, pre.len() as int + join_sums(xs).len() + "\n  }"@.len()),
        ),
    decreases xs.len(),
{
    let close = "\n  }"@;
    let sep = ",\n"@;
    let v = pre + (join_sums(xs) + close) + post;
    reveal_strlit("\n  }");
    reveal_strlit(",\n");
    if xs.len() == 1 {
        assert(join_sums(xs) == print_sum(xs[0]));
        assert(v =~= pre + print_sum(xs[0]) + (close + post));
        lemma_parse_sum_of_print(xs[0], pre, close + post);
        let p1 = pre + print_sum(xs[0]);
        assert(v[p1.len() as int] == close[0]);
        assert(close[0] == '\n');
        if lit_at(v, p1.len() as int, sep) {
            assert(v.subrange(p1.len() as int, p1.len() as int + 2)[0] == ',');
            assert(false);
        }
        assert(expect(v, p1.len() as int, sep) is None);
        assert(v =~= p1 + close + post);
        lemma_expect_of_lit(p1, close, post);
        assert(seq![xs[0]] =~= xs);
    } else {
        let rest = xs.drop_first();
        assert(join_sums(xs) == print_sum(xs[0]) + sep + join_sums(rest));
        let t2 = join_sums(rest) + close + post;
        assert(v =~= pre + print_sum(xs[0]) + (sep + t2));
        lemma_parse_sum_of_print(xs[0], pre, sep + t2);
        let p1 = pre + print_sum(xs[0]);
        assert(v =~= p1 + sep + t2);
        lemma_expect_of_lit(p1, sep, t2);
        let p2 = p1 + sep;
        assert(v =~= p2 + (join_sums(rest) + close) + post);
        lemma_parse_sums_items_of_print(rest, p2, post, (fuel - 1) as nat);
        assert(seq![xs[0]] + rest =~= xs);
    }
}

/// Parsing inverts printing for sums.
#[verifier::rlimit(100)]
#[verifier::spinoff_prover]
proof fn lemma_parse_sums_of_print(xs: Seq<(Seq<char>, Seq<char>)>, pre: Seq<char>, post: Seq<char>, fuel: nat)
    requires
        fuel >= xs.len(),
    ensures
        parse_sums(pre + print_sums(xs) + post, pre.len() as int, fuel) == Some(
            (xs, pre.len() as int + print_sums(xs).len()),
        ),
{
    let v = pre + print_sums(xs) + post;
    reveal_strlit("{}");
    reveal_strlit("{\n");
    if xs.len() == 0 {
        assert(v =~= pre + "{}"@ + post);
        lemma_expect_of_lit(pre, "{}"@, post);
        assert(xs =~= Seq::<(Seq<char>, Seq<char>)>::empty());
    } else {
        let close = "\n  }"@;
        assert(print_sums(xs) == "{\n"@ + join_sums(xs) + close);
        assert(v[pre.len() as int + 1] == "{\n"@[1]);
        if lit_at(v, pre.len() as int, "{}"@) {
            assert(v.subrange(pre.len() as int, pre.len() as int + 2)[1] == "{}"@[1]);
            assert(false);
        }
        assert(expect(v, pre.len() as int, "{}"@) is None);
        let t1 = (join_sums(xs) + close) + post;
        assert(v =~= pre + "{\n"@ + t1);
        lemma_expect_of_lit(pre, "{\n"@, t1);
        let p1 = pre + "{\n"@;
        assert(v =~= p1 + (join_sums(xs) + close) + post);
        lemma_parse_sums_items_of_print(xs, p1, post, fuel);
    }
}

/// A printed item list is at least as long as the list itself.
proof fn lemma_join_lens(
    ms: Seq<crate::plan::MutationModel>,
    cs: Seq<crate::plan::ConflictModel>,
    ps: Seq<crate::plan::ProvenanceModel>,
    ks: Seq<(Seq<char>, Seq<char>)>,
)
    ensures
        join_mutations(ms).len() >= ms.len(),
        join_conflicts(cs).len() >= cs.len(),
        join_provs(ps).len() >= ps.len(),
        join_sums(ks).len() >= ks.len(),
    decreases ms.len() + cs.len() + ps.len() + ks.len(),
{
    reveal_strlit("    {\n      \"action\": ");
    reveal_strlit("    {\n      \"file_path\": ");
    reveal_strlit("    ");
    if ms.len() > 1 || cs.len() > 1 || ps.len() > 1 || ks.len() > 1 {
        lemma_join_lens(
            if ms.len() > 1 {
                ms.drop_first()
            } else {
                ms
            },
            if cs.len() > 1 {
                cs.drop_first()
            } else {
                cs
            },
            if ps.len() > 1 {
                ps.drop_first()
            } else {
                ps
            },
            if ks.len() > 1 {
                ks.drop_first()
            } else {
                ks
            },
        );
    }
}

/// The canonical printed form of a whole plan.
pub open spec fn print_plan(p: crate::plan::PlanModel) -> Seq<char> {
    "{\n  \"operation\": "@ + js(op_name(p.operation)) + ",\n  \"component_name\": "@ + js(
        p.component_name,
    ) + ",\n  \"component_version\": "@ + js(p.component_version) + ",\n  \"mutations\": "@
        + print_mutations(p.mutations) + ",\n  \"conflicts\": "@ + print_conflicts(p.conflicts)
        + ",\n  \"provenance_actions\": "@ + print_provs(p.provenance_actions)
        + ",\n  \"file_checksums\": "@ + print_sums(p.file_checksums)
        + ",\n  \"target_layout\": "@ + js(p.target_layout) + "\n}"@
}

/// Parses the front half of a plan: operation, names and mutations.
pub open spec fn parse_plan_front(s: Seq<char>, i: int) -> Option<
    ((crate::plan::Operation, Seq<char>, Seq<char>, Seq<crate::plan::MutationModel>), int),
> {
    let fuel = s.len();
    match expect(s, i, "{\n  \"operation\": "@) {
        None => None,
        Some(j0) => match parse_op(s, j0) {
            None => None,
            Some((operation, j1)) => match expect(s, j1, ",\n  \"component_name\": "@) {
                None => None,
                Some(j2) => match parse_string(s, j2) {
                    None => None,
                    Some((component_name, j3)) => match expect(
                        s,
                        j3,
                        ",\n  \"component_version\": "@,
                    ) {
                        None => None,
                        Some(j4) => match parse_string(s, j4) {
                            None => None,
                            Some((component_version, j5)) => match expect(
                                s,
                                j5,
                                ",\n  \"mutations\": "@,
                            ) {
                                None => None,
                                Some(j6) => match parse_mutations(s, j6, fuel) {
                                    None => None,
                                    Some((mutations, j7)) => Some(
                                        (
                                            (operation, component_name, component_version, mutations),
                                            j7,
                                        ),
                                    ),
                                },
                            },
                        },
                    },
                },
            },
        },
    }
}

/// Parses conflicts and provenance actions.
pub open spec fn parse_plan_b1(s: Seq<char>, i: int) -> Option<
    ((Seq<crate::plan::ConflictModel>, Seq<crate::plan::ProvenanceModel>), int),
> {
    let fuel = s.len();
    match expect(s, i, ",\n  \"conflicts\": "@) {
        None => None,
        Some(j8) => match parse_conflicts(s, j8, fuel) {
            None => None,
            Some((conflicts, j9)) => match expect(s, j9, ",\n  \"provenance_actions\": "@) {
                None => None,
                Some(j10) => match parse_provs(s, j10, fuel) {
                    None => None,
                    Some((provenance_actions, j11)) => Some(((conflicts, provenance_actions), j11)),
                },
            },
        },
    }
}

/// Parses checksums and the layout name, through the closing brace.
pub open spec fn parse_plan_b2(s: Seq<char>, i: int) -> Option<
    ((Seq<(Seq<char>, Seq<char>)>, Seq<char>), int),
> {
    let fuel = s.len();
    match expect(s, i, ",\n  \"file_checksums\": "@) {
        None => None,
        Some(j12) => match parse_sums(s, j12, fuel) {
            None => None,
            Some((file_checksums, j13)) => match expect(s, j13, ",\n  \"target_layout\": "@) {
                None => None,
                Some(j14) => match parse_string(s, j14) {
                    None => None,
                    Some((target_layout, j15)) => match expect(s, j15, "\n}"@) {
                        None => None,
                        Some(j16) => Some(((file_checksums, target_layout), j16)),
                    },
                },
            },
        },
    }
}

/// Parses the back half of a plan: conflicts, provenance, checksums
/// and the layout name, through the closing brace.
pub open spec fn parse_plan_back(s: Seq<char>, i: int) -> Option<
    (
        (
            Seq<crate::plan::ConflictModel>,
            Seq<crate::plan::ProvenanceModel>,
            Seq<(Seq<char>, Seq<char>)>,
            Seq<char>,
        ),
        int,
    ),
> {
    match parse_plan_b1(s, i) {
        None => None,
        Some(((conflicts, provenance_actions), j)) => match parse_plan_b2(s, j) {
            None => None,
            Some(((file_checksums, target_layout), j2)) => Some(
                ((conflicts, provenance_actions, file_checksums, target_layout), j2),
            ),
        },
    }
}

/// Parses a whole plan starting at `i`.
pub open spec fn parse_plan_at(s: Seq<char>, i: int) -> Option<(crate::plan::PlanModel, int)> {
    match parse_plan_front(s, i) {
        None => None,
        Some(((operation, component_name, component_version, mutations), j)) => match parse_plan_back(
            s,
            j,
        ) {
            None => None,
            Some(((conflicts, provenance_actions, file_checksums, target_layout), j2)) => Some(
                (
                    crate::plan::PlanModel {
                        operation,
                        component_name,
                        component_version,
                        mutations,
                        conflicts,
                        provenance_actions,
                        file_checksums,
                        target_layout,
                    },
                    j2,
                ),
            ),
        },
    }
}

/// Parses a whole plan: the entire text must be one canonical plan.
pub open spec fn spec_parse_plan(s: Seq<char>) -> Option<crate::plan::PlanModel> {
    match parse_plan_at(s, 0) {
        Some((p, j)) => if j == s.len() {
            Some(p)
        } else {
            None
        },
        None => None,
    }
}

/// The front half of the printed plan.
pub open spec fn print_plan_front(p: crate::plan::PlanModel) -> Seq<char> {
    "{\n  \"operation\": "@ + js(op_name(p.operation)) + ",\n  \"component_name\": "@ + js(
        p.component_name,
    ) + ",\n  \"component_version\": "@ + js(p.component_version) + ",\n  \"mutations\": "@
        + print_mutations(p.mutations)
}

/// The back half of the printed plan.
pub open spec fn print_plan_back(p: crate::plan::PlanModel) -> Seq<char> {
    ",\n  \"conflicts\": "@ + print_conflicts(p.conflicts) + ",\n  \"provenance_actions\": "@
        + print_provs(p.provenance_actions) + ",\n  \"file_checksums\": "@ + print_sums(
        p.file_checksums,
    ) + ",\n  \"target_layout\": "@ + js(p.target_layout) + "\n}"@
}

/// The printed plan is its front half followed by its back half.
proof fn lemma_print_plan_split(p: crate::plan::PlanModel)
    ensures
        print_plan(p) == print_plan_front(p) + print_plan_back(p),
{
    assert(print_plan(p) =~= print_plan_front(p) + print_plan_back(p));
}

/// Parsing inverts printing for the front half of a plan.
#[verifier::rlimit(100)]
#[verifier::spinoff_prover]
proof fn lemma_parse_plan_front_of_print(
    p: crate::plan::PlanModel,
    pre: Seq<char>,
    post: Seq<char>,
)
    requires
        (pre + print_plan_front(p) + post).len() >= p.mutations.len(),
    ensures
        parse_plan_front(pre + print_plan_front(p) + post, pre.len() as int) == Some(
            (
                (p.operation, p.component_name, p.component_version, p.mutations),
                pre.len() as int + print_plan_front(p).len(),
            ),
        ),
{
    let l0 = "{\n  \"operation\": "@;
    let l1 = ",\n  \"component_name\": "@;
    let l2 = ",\n  \"component_version\": "@;
    let l3 = ",\n  \"mutations\": "@;
    let a = js(op_name(p.operation));
    let cn = js(p.component_name);
    let cv = js(p.component_version);
    let ml = print_mutations(p.mutations);
    let v = pre + print_plan_front(p) + post;
    let fuel = v.len();
    let t7 = ml + post;
    let t6 = l3 + t7;
    let t5 = cv + t6;
    let t4 = l2 + t5;
    let t3 = cn + t4;
    let t2 = l1 + t3;
    let t1 = a + t2;
    assert(v =~= pre + l0 + t1);
    lemma_expect_of_lit(pre, l0, t1);
    let p1 = pre + l0;
    assert(v =~= p1 + a + t2);
    lemma_parse_op_of_print(p.operation, p1, t2);
    let p2 = p1 + a;
    assert(v =~= p2 + l1 + t3);
    lemma_expect_of_lit(p2, l1, t3);
    let p3 = p2 + l1;
    assert(v =~= p3 + cn + t4);
    lemma_parse_string_of_js(p.component_name, p3, t4);
    let p4 = p3 + cn;
    assert(v =~= p4 + l2 + t5);
    lemma_expect_of_lit(p4, l2, t5);
    let p5 = p4 + l2;
    assert(v =~= p5 + cv + t6);
    lemma_parse_string_of_js(p.component_version, p5, t6);
    let p6 = p5 + cv;
    assert(v =~= p6 + l3 + t7);
    lemma_expect_of_lit(p6, l3, t7);
    let p7 = p6 + l3;
    assert(v =~= p7 + ml + post);
    lemma_parse_mutations_of_print(p.mutations, p7, post, fuel);
}

/// The conflicts-and-provenance part of the printed plan.
pub open spec fn print_plan_b1(p: crate::plan::PlanModel) -> Seq<char> {
    ",\n  \"conflicts\": "@ + print_conflicts(p.conflicts) + ",\n  \"provenance_actions\": "@
        + print_provs(p.provenance_actions)
}

/// The checksums-and-layout part of the printed plan.
pub open spec fn print_plan_b2(p: crate::plan::PlanModel) -> Seq<char> {
    ",\n  \"file_checksums\": "@ + print_sums(p.file_checksums) + ",\n  \"target_layout\": "@
        + js(p.target_layout) + "\n}"@
}

/// Parsing inverts printing for conflicts and provenance.
#[verifier::rlimit(100)]
#[verifier::spinoff_prover]
proof fn lemma_parse_plan_b1_of_print(p: crate::plan::PlanModel, pre: Seq<char>, post: Seq<char>)
    requires
        (pre + print_plan_b1(p) + post).len() >= p.conflicts.len(),
        (pre + print_plan_b1(p) + post).len() >= p.provenance_actions.len(),
    ensures
        parse_plan_b1(pre + print_plan_b1(p) + post, pre.len() as int) == Some(
            ((p.conflicts, p.provenance_actions), pre.len() as int + print_plan_b1(p).len()),
        ),
{
    let l4 = ",\n  \"conflicts\": "@;
    let l5 = ",\n  \"provenance_actions\": "@;
    let cl = print_conflicts(p.conflicts);
    let pl = print_provs(p.provenance_actions);
    let v = pre + print_plan_b1(p) + post;
    let fuel = v.len();
    let t11 = pl + post;
    let t10 = l5 + t11;
    let t9 = cl + t10;
    assert(v =~= pre + l4 + t9);
    lemma_expect_of_lit(pre, l4, t9);
    let p9 = pre + l4;
    assert(v =~= p9 + cl + t10);
    lemma_parse_conflicts_of_print(p.conflicts, p9, t10, fuel);
    let p10 = p9 + cl;
    assert(v =~= p10 + l5 + t11);
    lemma_expect_of_lit(p10, l5, t11);
    let p11 = p10 + l5;
    assert(v =~= p11 + pl + post);
    lemma_parse_provs_of_print(p.provenance_actions, p11, post, fuel);
}

/// Parsing inverts printing for checksums and the layout name.
#[verifier::rlimit(100)]
#[verifier::spinoff_prover]
proof fn lemma_parse_plan_b2_of_print(p: crate::plan::PlanModel, pre: Seq<char>, post: Seq<char>)
    requires
        (pre + print_plan_b2(p) + post).len() >= p.file_checksums.len(),
    ensures
        parse_plan_b2(pre + print_plan_b2(p) + post, pre.len() as int) == Some(
            ((p.file_checksums, p.target_layout), pre.len() as int + print_plan_b2(p).len()),
        ),
{
    let l6 = ",\n  \"file_checksums\": "@;
    let l7 = ",\n  \"target_layout\": "@;
    let l8 = "\n}"@;
    let kl = print_sums(p.file_checksums);
    let tl = js(p.target_layout);
    let v = pre + print_plan_b2(p) + post;
    let fuel = v.len();
    let t16 = l8 + post;
    let t15 = tl + t16;
    let t14 = l7 + t15;
    let t13 = kl + t14;
    assert(v =~= pre + l6 + t13);
    lemma_expect_of_lit(pre, l6, t13);
    let p13 = pre + l6;
    assert(v =~= p13 + kl + t14);
    lemma_parse_sums_of_print(p.file_checksums, p13, t14, fuel);
    let p14 = p13 + kl;
    assert(v =~= p14 + l7 + t15);
    lemma_expect_of_lit(p14, l7, t15);
    let p15 = p14 + l7;
    assert(v =~= p15 + tl + t16);
    lemma_parse_string_of_js(p.target_layout, p15, t16);
    let p16 = p15 + tl;
    assert(v =~= p16 + l8 + post);
    lemma_expect_of_lit(p16, l8, post);
}

/// Parsing inverts printing for the back half of a plan.
#[verifier::rlimit(100)]
#[verifier::spinoff_prover]
proof fn lemma_parse_plan_back_of_print(
    p: crate::plan::PlanModel,
    pre: Seq<char>,
    post: Seq<char>,
)
    requires
        (pre + print_plan_back(p) + post).len() >= p.conflicts.len(),
        (pre + print_plan_back(p) + post).len() >= p.provenance_actions.len(),
        (pre + print_plan_back(p) + post).len() >= p.file_checksums.len(),
    ensures
        parse_plan_back(pre + print_plan_back(p) + post, pre.len() as int) == Some(
            (
                (p.conflicts, p.provenance_actions, p.file_checksums, p.target_layout),
                pre.len() as int + print_plan_back(p).len(),
            ),
        ),
{
    let v = pre + print_plan_back(p) + post;
    assert(print_plan_back(p) =~= print_plan_b1(p) + print_plan_b2(p));
    assert(v =~= pre + print_plan_b1(p) + (print_plan_b2(p) + post));
    lemma_parse_plan_b1_of_print(p, pre, print_plan_b2(p) + post);
    let mid = pre + print_plan_b1(p);
    assert(v =~= mid + print_plan_b2(p) + post);
    lemma_parse_plan_b2_of_print(p, mid, post);
    assert(parse_plan_b1(v, pre.len() as int) == Some(
        ((p.conflicts, p.provenance_actions), mid.len() as int),
    ));
    assert(parse_plan_b2(v, mid.len() as int) == Some(
        ((p.file_checksums, p.target_layout), mid.len() as int + print_plan_b2(p).len()),
    ));
}

/// Parsing inverts printing for a whole plan.
#[verifier::rlimit(100)]
#[verifier::spinoff_prover]
pub proof fn lemma_parse_plan_of_print(p: crate::plan::PlanModel, pre: Seq<char>, post: Seq<char>)
    ensures
        parse_plan_at(pre + print_plan(p) + post, pre.len() as int) == Some(
            (p, pre.len() as int + print_plan(p).len()),
        ),
{
    let v = pre + print_plan(p) + post;
    lemma_print_plan_split(p);
    lemma_join_lens(p.mutations, p.conflicts, p.provenance_actions, p.file_checksums);
    assert(v =~= pre + print_plan_front(p) + (print_plan_back(p) + post));
    lemma_parse_plan_front_of_print(p, pre, print_plan_back(p) + post);
    let mid = pre + print_plan_front(p);
    assert(v =~= mid + print_plan_back(p) + post);
    lemma_parse_plan_back_of_print(p, mid, post);
    assert(parse_plan_front(v, pre.len() as int) == Some(
        (
            (p.operation, p.component_name, p.component_version, p.mutations),
            mid.len() as int,
        ),
    ));
    assert(parse_plan_back(v, mid.len() as int) == Some(
        (
            (p.conflicts, p.provenance_actions, p.file_checksums, p.target_layout),
            mid.len() as int + print_plan_back(p).len(),
        ),
    ));
}

/// Round trip: the canonical printed form of any plan parses back to
/// exactly that plan.
pub proof fn lemma_plan_json_round_trip(p: crate::plan::PlanModel)
    ensures
        spec_parse_plan(print_plan(p)) == Some(p),
{
    let v = print_plan(p);
    let empty = Seq::<char>::empty();
    assert(empty + v + empty =~= v);
    lemma_parse_plan_of_print(p, empty, empty);
}

/// Appends the JSON name of a file action.
fn append_action(out: &mut String, a: crate::plan::FileAction)
    ensures
        final(out)@ == old(out)@ + js(action_name(a)),
{
    match a {
        crate::plan::FileAction::Create => append_json_string(out, "create"),
        crate::plan::FileAction::Modify => append_json_string(out, "modify"),
        crate::plan::FileAction::Delete => append_json_string(out, "delete"),
    }
}

/// Appends the JSON name of a mutation strategy.
fn append_strategy(out: &mut String, t: crate::plan::MutationStrategy)
    ensures
        final(out)@ == old(out)@ + js(strategy_name(t)),
{
    match t {
        crate::plan::MutationStrategy::WriteFile => append_json_string(out, "write_file"),
        crate::plan::MutationStrategy::AppendExport => append_json_string(out, "append_export"),
        crate::plan::MutationStrategy::InsertUse => append_json_string(out, "insert_use"),
        crate::plan::MutationStrategy::ReplaceSection => append_json_string(
            out,
            "replace_section",
        ),
        crate::plan::MutationStrategy::DeleteFile => append_json_string(out, "delete_file"),
    }
}

/// Appends one printed mutation.
fn append_mutation(out: &mut String, m: &crate::plan::FileMutation)
    ensures
        final(out)@ == old(out)@ + print_mutation(m.deep_view()),
{
    let ghost start = out@;
    out.append("    {\n      \"action\": ");
    append_action(out, m.action);
    out.append(",\n      \"file_path\": ");
    append_json_string(out, m.file_path.as_str());
    out.append(",\n      \"strategy\": ");
    append_strategy(out, m.strategy);
    out.append(",\n      \"content\": ");
    append_json_string(out, m.content.as_str());
    out.append(",\n      \"description\": ");
    append_json_string(out, m.description.as_str());
    out.append("\n    }");
    assert(out@ =~= start + print_mutation(m.deep_view()));
}

/// Appends one printed conflict.
fn append_conflict(out: &mut String, c: &crate::plan::Conflict)
    ensures
        final(out)@ == old(out)@ + print_conflict(c.deep_view()),
{
    let ghost start = out@;
    out.append("    {\n      \"file_path\": ");
    append_json_string(out, c.file_path.as_str());
    out.append(",\n      \"reason\": ");
    append_json_string(out, c.reason.as_str());
    out.append("\n    }");
    assert(out@ =~= start + print_conflict(c.deep_view()));
}

/// Appends one printed provenance action.
fn append_prov(out: &mut String, a: &crate::plan::ProvenanceAction)
    ensures
        final(out)@ == old(out)@ + print_prov(a.deep_view()),
{
    let ghost start = out@;
    out.append("    {\n      \"file_path\": ");
    append_json_string(out, a.file_path.as_str());
    out.append(",\n      \"source\": ");
    append_json_string(out, a.source.as_str());
    out.append(",\n      \"license\": ");
    append_json_string(out, a.license.as_str());
    out.append(",\n      \"modifications\": ");
    append_json_string(out, a.modifications.as_str());
    out.append("\n    }");
    assert(out@ =~= start + print_prov(a.deep_view()));
}

/// Appends one printed checksum entry.
fn append_sum(out: &mut String, e: &(String, String))
    ensures
        final(out)@ == old(out)@ + print_sum(e.deep_view()),
{
    let ghost start = out@;
    out.append("    ");
    append_json_string(out, e.0.as_str());
    out.append(": ");
    append_json_string(out, e.1.as_str());
    assert(out@ =~= start + print_sum(e.deep_view()));
}

/// Appends the printed items of a mutation list, from index `i` on.
fn append_mutations_items(out: &mut String, v: &Vec<crate::plan::FileMutation>, i: usize)
    requires
        i < v@.len(),
    ensures
        final(out)@ == old(out)@ + join_mutations(v.deep_view().skip(i as int)),
    decreases v@.len() - i,
{
    let ghost s = v.deep_view().skip(i as int);
    proof {
        assert(s[0] == v.deep_view()[i as int]);
        assert(s.drop_first() =~= v.deep_view().skip(i + 1));
    }
    append_mutation(out, &v[i]);
    if i < v.len() - 1 {
        out.append(",\n");
        append_mutations_items(out, v, i + 1);
        assert(out@ =~= old(out)@ + join_mutations(s));
    } else {
        assert(s.len() == 1);
        assert(out@ =~= old(out)@ + join_mutations(s));
    }
}

/// Appends a printed mutation list.
pub fn append_mutations(out: &mut String, v: &Vec<crate::plan::FileMutation>)
    ensures
        final(out)@ == old(out)@ + print_mutations(v.deep_view()),
{
    if v.len() == 0 {
        out.append("[]");
    } else {
        out.append("[\n");
        append_mutations_items(out, v, 0);
        out.append("\n  ]");
        proof {
            assert(v.deep_view().skip(0) =~= v.deep_view());
            assert(out@ =~= old(out)@ + print_mutations(v.deep_view()));
        }
    }
}

/// Appends the printed items of a conflict list, from index `i` on.
fn append_conflicts_items(out: &mut String, v: &Vec<crate::plan::Conflict>, i: usize)
    requires
        i < v@.len(),
    ensures
        final(out)@ == old(out)@ + join_conflicts(v.deep_view().skip(i as int)),
    decreases v@.len() - i,
{
    let ghost s = v.deep_view().skip(i as int);
    proof {
        assert(s[0] == v.deep_view()[i as int]);
        assert(s.drop_first() =~= v.deep_view().skip(i + 1));
    }
    append_conflict(out, &v[i]);
    if i < v.len() - 1 {
        out.append(",\n");
        append_conflicts_items(out, v, i + 1);
        assert(out@ =~= old(out)@ + join_conflicts(s));
    } else {
        assert(s.len() == 1);
        assert(out@ =~= old(out)@ + join_conflicts(s));
    }
}

/// Appends a printed conflict list.
fn append_conflicts(out: &mut String, v: &Vec<crate::plan::Conflict>)
    ensures
        final(out)@ == old(out)@ + print_conflicts(v.deep_view()),
{
    if v.len() == 0 {
        out.append("[]");
    } else {
        out.append("[\n");
        append_conflicts_items(out, v, 0);
        out.append("\n  ]");
        proof {
            assert(v.deep_view().skip(0) =~= v.deep_view());
            assert(out@ =~= old(out)@ + print_conflicts(v.deep_view()));
        }
    }
}

/// Appends the printed items of a provenance list, from index `i` on.
fn append_provs_items(out: &mut String, v: &Vec<crate::plan::ProvenanceAction>, i: usize)
    requires
        i < v@.len(),
    ensures
        final(out)@ == old(out)@ + join_provs(v.deep_view().skip(i as int)),
    decreases v@.len() - i,
{
    let ghost s = v.deep_view().skip(i as int);
    proof {
        assert(s[0] == v.deep_view()[i as int]);
        assert(s.drop_first() =~= v.deep_view().skip(i + 1));
    }
    append_prov(out, &v[i]);
    if i < v.len() - 1 {
        out.append(",\n");
        append_provs_items(out, v, i + 1);
        assert(out@ =~= old(out)@ + join_provs(s));
    } else {
        assert(s.len() == 1);
        assert(out@ =~= old(out)@ + join_provs(s));
    }
}

/// Appends a printed provenance list.
fn append_provs(out: &mut String, v: &Vec<crate::plan::ProvenanceAction>)
    ensures
        final(out)@ == old(out)@ + print_provs(v.deep_view()),
{
    if v.len() == 0 {
        out.append("[]");
    } else {
        out.append("[\n");
        append_provs_items(out, v, 0);
        out.append("\n  ]");
        proof {
            assert(v.deep_view().skip(0) =~= v.deep_view());
            assert(out@ =~= old(out)@ + print_provs(v.deep_view()));
        }
    }
}

/// Appends the printed entries of a checksum map, from index `i` on.
fn append_sums_items(out: &mut String, v: &Vec<(String, String)>, i: usize)
    requires
        i < v@.len(),
    ensures
        final(out)@ == old(out)@ + join_sums(v.deep_view().skip(i as int)),
    decreases v@.len() - i,
{
    let ghost s = v.deep_view().skip(i as int);
    proof {
        assert(s[0] == v.deep_view()[i as int]);
        assert(s.drop_first() =~= v.deep_view().skip(i + 1));
    }
    append_sum(out, &v[i]);
    if i < v.len() - 1 {
        out.append(",\n");
        append_sums_items(out, v, i + 1);
        assert(out@ =~= old(out)@ + join_sums(s));
    } else {
        assert(s.len() == 1);
        assert(out@ =~= old(out)@ + join_sums(s));
    }
}

/// Appends a printed checksum map.
fn append_sums(out: &mut String, v: &Vec<(String, String)>)
    ensures
        final(out)@ == old(out)@ + print_sums(v.deep_view()),
{
    if v.len() == 0 {
        out.append("{}");
    } else {
        out.append("{\n");
        append_sums_items(out, v, 0);
        out.append("\n  }");
        proof {
            assert(v.deep_view().skip(0) =~= v.deep_view());
            assert(out@ =~= old(out)@ + print_sums(v.deep_view()));
        }
    }
}

/// Appends the canonical printed form of a plan.
#[verifier::rlimit(100)]
#[verifier::spinoff_prover]
pub fn append_plan(out: &mut String, p: &crate::plan::PlanContract)
    ensures
        final(out)@ == old(out)@ + print_plan(p.deep_view()),
{
    let ghost start = out@;
    out.append("{\n  \"operation\": ");
    match p.operation {
        crate::plan::Operation::Add => append_json_string(out, "add"),
        crate::plan::Operation::Update => append_json_string(out, "update"),
        crate::plan::Operation::Remove => append_json_string(out, "remove"),
    }
    out.append(",\n  \"component_name\": ");
    append_json_string(out, p.component_name.as_str());
    out.append(",\n  \"component_version\": ");
    append_json_string(out, p.component_version.as_str());
    out.append(",\n  \"mutations\": ");
    append_mutations(out, &p.mutations);
    out.append(",\n  \"conflicts\": ");
    append_conflicts(out, &p.conflicts);
    out.append(",\n  \"provenance_actions\": ");
    append_provs(out, &p.provenance_actions);
    out.append(",\n  \"file_checksums\": ");
    append_sums(out, &p.file_checksums);
    out.append(",\n  \"target_layout\": ");
    append_json_string(out, p.target_layout.as_str());
    out.append("\n}");
    assert(out@ =~= start + print_plan(p.deep_view()));
}

/// Consumes an expected literal at position `i`.
pub fn expect_exec(v: &Vec<char>, i: usize, lit: &str) -> (r: Option<usize>)
    ensures
        match r {
            Some(j) => expect(v@, i as int, lit@) == Some(j as int) && i <= j <= v@.len(),
            None => expect(v@, i as int, lit@) is None,
        },
{
    let n = lit.unicode_len();
    let vn = v.len();
    if i > vn || n > vn - i {
        return None;
    }
    let mut j: usize = 0;
    while j < n
        invariant
            n == lit@.len(),
            vn == v@.len(),
            i + n <= vn,
            j <= n,
            forall|t: int| 0 <= t < j ==> v@[i + t] == lit@[t],
        decreases n - j,
    {
        if v[i + j] != lit.get_char(j) {
            proof {
                if lit_at(v@, i as int, lit@) {
                    assert(v@.subrange(i as int, i + lit@.len())[j as int] == lit@[j as int]);
                }
            }
            return None;
        }
        j = j + 1;
    }
    assert(v@.subrange(i as int, i + lit@.len()) =~= lit@);
    Some(i + n)
}

/// Parses a file-action name at position `i`.
fn parse_action_exec(v: &Vec<char>, i: usize) -> (r: Option<(crate::plan::FileAction, usize)>)
    ensures
        match r {
            Some((a, j)) => parse_action(v@, i as int) == Some((a, j as int)) && i <= j
                <= v@.len(),
            None => parse_action(v@, i as int) is None,
        },
{
    match parse_string_exec(v, i) {
        None => None,
        Some((x, j)) => {
            if crate::strutil::str_eq(x.as_str(), "create") {
                Some((crate::plan::FileAction::Create, j))
            } else if crate::strutil::str_eq(x.as_str(), "modify") {
                Some((crate::plan::FileAction::Modify, j))
            } else if crate::strutil::str_eq(x.as_str(), "delete") {
                Some((crate::plan::FileAction::Delete, j))
            } else {
                None
            }
        },
    }
}

/// Parses a strategy name at position `i`.
fn parse_strategy_exec(v: &Vec<char>, i: usize) -> (r: Option<
    (crate::plan::MutationStrategy, usize),
>)
    ensures
        match r {
            Some((t, j)) => parse_strategy(v@, i as int) == Some((t, j as int)) && i <= j
                <= v@.len(),
            None => parse_strategy(v@, i as int) is None,
        },
{
    match parse_string_exec(v, i) {
        None => None,
        Some((x, j)) => {
            if crate::strutil::str_eq(x.as_str(), "write_file") {
                Some((crate::plan::MutationStrategy::WriteFile, j))
            } else if crate::strutil::str_eq(x.as_str(), "append_export") {
                Some((crate::plan::MutationStrategy::AppendExport, j))
            } else if crate::strutil::str_eq(x.as_str(), "insert_use") {
                Some((crate::plan::MutationStrategy::InsertUse, j))
            } else if crate::strutil::str_eq(x.as_str(), "replace_section") {
                Some((crate::plan::MutationStrategy::ReplaceSection, j))
            } else if crate::strutil::str_eq(x.as_str(), "delete_file") {
                Some((crate::plan::MutationStrategy::DeleteFile, j))
            } else {
                None
            }
        },
    }
}

/// Parses an operation name at position `i`.
fn parse_op_exec(v: &Vec<char>, i: usize) -> (r: Option<(crate::plan::Operation, usize)>)
    ensures
        match r {
            Some((o, j)) => parse_op(v@, i as int) == Some((o, j as int)) && i <= j <= v@.len(),
            None => parse_op(v@, i as int) is None,
        },
{
    match parse_string_exec(v, i) {
        None => None,
        Some((x, j)) => {
            if crate::strutil::str_eq(x.as_str(), "add") {
                Some((crate::plan::Operation::Add, j))
            } else if crate::strutil::str_eq(x.as_str(), "update") {
                Some((crate::plan::Operation::Update, j))
            } else if crate::strutil::str_eq(x.as_str(), "remove") {
                Some((crate::plan::Operation::Remove, j))
            } else {
                None
            }
        },
    }
}

/// Parses one mutation at position `i`.
fn parse_mutation_exec(v: &Vec<char>, i: usize) -> (r: Option<
    (crate::plan::FileMutation, usize),
>)
    ensures
        match r {
            Some((m, j)) => parse_mutation(v@, i as int) == Some((m.deep_view(), j as int)) && i
                <= j <= v@.len(),
            None => parse_mutation(v@, i as int) is None,
        },
{
    let j0 = match expect_exec(v, i, "    {\n      \"action\": ") {
        Some(j) => j,
        None => {
            return None;
        },
    };
    let (action, j1) = match parse_action_exec(v, j0) {
        Some(x) => x,
        None => {
            return None;
        },
    };
    let j2 = match expect_exec(v, j1, ",\n      \"file_path\": ") {
        Some(j) => j,
        None => {
            return None;
        },
    };
    let (file_path, j3) = match parse_string_exec(v, j2) {
        Some(x) => x,
        None => {
            return None;
        },
    };
    let j4 = match expect_exec(v, j3, ",\n      \"strategy\": ") {
        Some(j) => j,
        None => {
            return None;
        },
    };
    let (strategy, j5) = match parse_strategy_exec(v, j4) {
        Some(x) => x,
        None => {
            return None;
        },
    };
    let j6 = match expect_exec(v, j5, ",\n      \"content\": ") {
        Some(j) => j,
        None => {
            return None;
        },
    };
    let (content, j7) = match parse_string_exec(v, j6) {
        Some(x) => x,
        None => {
            return None;
        },
    };
    let j8 = match expect_exec(v, j7, ",\n      \"description\": ") {
        Some(j) => j,
        None => {
            return None;
        },
    };
    let (description, j9) = match parse_string_exec(v, j8) {
        Some(x) => x,
        None => {
            return None;
        },
    };
    let j10 = match expect_exec(v, j9, "\n    }") {
        Some(j) => j,
        None => {
            return None;
        },
    };
    Some(
        (
            crate::plan::FileMutation { action, file_path, strategy, content, description },
            j10,
        ),
    )
}

/// Parses one conflict at position `i`.
fn parse_conflict_exec(v: &Vec<char>, i: usize) -> (r: Option<(crate::plan::Conflict, usize)>)
    ensures
        match r {
            Some((c, j)) => parse_conflict(v@, i as int) == Some((c.deep_view(), j as int)) && i
                <= j <= v@.len(),
            None => parse_conflict(v@, i as int) is None,
        },
{
    let j0 = match expect_exec(v, i, "    {\n      \"file_path\": ") {
        Some(j) => j,
        None => {
            return None;
        },
    };
    let (file_path, j1) = match parse_string_exec(v, j0) {
        Some(x) => x,
        None => {
            return None;
        },
    };
    let j2 = match expect_exec(v, j1, ",\n      \"reason\": ") {
        Some(j) => j,
        None => {
            return None;
        },
    };
    let (reason, j3) = match parse_string_exec(v, j2) {
        Some(x) => x,
        None => {
            return None;
        },
    };
    let j4 = match expect_exec(v, j3, "\n    }") {
        Some(j) => j,
        None => {
            return None;
        },
    };
    Some((crate::plan::Conflict { file_path, reason }, j4))
}

/// Parses one provenance action at position `i`.
fn parse_prov_exec(v: &Vec<char>, i: usize) -> (r: Option<
    (crate::plan::ProvenanceAction, usize),
>)
    ensures
        match r {
            Some((a, j)) => parse_prov(v@, i as int) == Some((a.deep_view(), j as int)) && i <= j
                <= v@.len(),
            None => parse_prov(v@, i as int) is None,
        },
{
    let j0 = match expect_exec(v, i, "    {\n      \"file_path\": ") {
        Some(j) => j,
        None => {
            return None;
        },
    };
    let (file_path, j1) = match parse_string_exec(v, j0) {
        Some(x) => x,
        None => {
            return None;
        },
    };
    let j2 = match expect_exec(v, j1, ",\n      \"source\": ") {
        Some(j) => j,
        None => {
            return None;
        },
    };
    let (source, j3) = match parse_string_exec(v, j2) {
        Some(x) => x,
        None => {
            return None;
        },
    };
    let j4 = match expect_exec(v, j3, ",\n      \"license\": ") {
        Some(j) => j,
        None => {
            return None;
        },
    };
    let (license, j5) = match parse_string_exec(v, j4) {
        Some(x) => x,
        None => {
            return None;
        },
    };
    let j6 = match expect_exec(v, j5, ",\n      \"modifications\": ") {
        Some(j) => j,
        None => {
            return None;
        },
    };
    let (modifications, j7) = match parse_string_exec(v, j6) {
        Some(x) => x,
        None => {
            return None;
        },
    };
    let j8 = match expect_exec(v, j7, "\n    }") {
        Some(j) => j,
        None => {
            return None;
        },
    };
    Some(
        (
            crate::plan::ProvenanceAction { file_path, source, license, modifications },
            j8,
        ),
    )
}

/// Parses one checksum entry at position `i`.
fn parse_sum_exec(v: &Vec<char>, i: usize) -> (r: Option<((String, String), usize)>)
    ensures
        match r {
            Some((e, j)) => parse_sum(v@, i as int) == Some((e.deep_view(), j as int)) && i <= j
                <= v@.len(),
            None => parse_sum(v@, i as int) is None,
        },
{
    let j0 = match expect_exec(v, i, "    ") {
        Some(j) => j,
        None => {
            return None;
        },
    };
    let (key, j1) = match parse_string_exec(v, j0) {
        Some(x) => x,
        None => {
            return None;
        },
    };
    let j2 = match expect_exec(v, j1, ": ") {
        Some(j) => j,
        None => {
            return None;
        },
    };
    let (val, j3) = match parse_string_exec(v, j2) {
        Some(x) => x,
        None => {
            return None;
        },
    };
    Some(((key, val), j3))
}

/// Parses the items of mutations at position `i`.
fn parse_mutations_items_exec(v: &Vec<char>, i: usize, fuel: usize) -> (r: Option<
    (Vec<crate::plan::FileMutation>, usize),
>)
    ensures
        match r {
            Some((w, j)) => parse_mutations_items(v@, i as int, fuel as nat) == Some(
                (w.deep_view(), j as int),
            ) && j <= v@.len(),
            None => parse_mutations_items(v@, i as int, fuel as nat) is None,
        },
    decreases fuel,
{
    if fuel == 0 {
        return None;
    }
    let (x, j) = match parse_mutation_exec(v, i) {
        Some(p) => p,
        None => {
            return None;
        },
    };
    match expect_exec(v, j, ",\n") {
        Some(j2) => {
            match parse_mutations_items_exec(v, j2, fuel - 1) {
                Some((rest, j3)) => {
                    let ghost restm = rest.deep_view();
                    let mut out = rest;
                    out.insert(0, x);
                    proof {
                        assert(out.deep_view() =~= seq![x.deep_view()] + restm);
                    }
                    Some((out, j3))
                },
                None => None,
            }
        },
        None => {
            match expect_exec(v, j, "\n  ]") {
                Some(j2) => {
                    let mut out: Vec<crate::plan::FileMutation> = Vec::new();
                    out.push(x);
                    proof {
                        assert(out.deep_view() =~= seq![x.deep_view()]);
                    }
                    Some((out, j2))
                },
                None => None,
            }
        },
    }
}

/// Parses mutations at position `i`.
fn parse_mutations_exec(v: &Vec<char>, i: usize, fuel: usize) -> (r: Option<(Vec<crate::plan::FileMutation>, usize)>)
    ensures
        match r {
            Some((w, j)) => parse_mutations(v@, i as int, fuel as nat) == Some(
                (w.deep_view(), j as int),
            ) && j <= v@.len(),
            None => parse_mutations(v@, i as int, fuel as nat) is None,
        },
{
    match expect_exec(v, i, "[]") {
        Some(j) => {
            let out: Vec<crate::plan::FileMutation> = Vec::new();
            proof {
                assert(out.deep_view() =~= Seq::<<crate::plan::FileMutation as DeepView>::V>::empty());
            }
            Some((out, j))
        },
        None => {
            match expect_exec(v, i, "[\n") {
                Some(j) => parse_mutations_items_exec(v, j, fuel),
                None => None,
            }
        },
    }
}

/// Parses the items of conflicts at position `i`.
fn parse_conflicts_items_exec(v: &Vec<char>, i: usize, fuel: usize) -> (r: Option<
    (Vec<crate::plan::Conflict>, usize),
>)
    ensures
        match r {
            Some((w, j)) => parse_conflicts_items(v@, i as int, fuel as nat) == Some(
                (w.deep_view(), j as int),
            ) && j <= v@.len(),
            None => parse_conflicts_items(v@, i as int, fuel as nat) is None,
        },
    decreases fuel,
{
    if fuel == 0 {
        return None;
    }
    let (x, j) = match parse_conflict_exec(v, i) {
        Some(p) => p,
        None => {
            return None;
        },
    };
    match expect_exec(v, j, ",\n") {
        Some(j2) => {
            match parse_conflicts_items_exec(v, j2, fuel - 1) {
                Some((rest, j3)) => {
                    let ghost restm = rest.deep_view();
                    let mut out = rest;
                    out.insert(0, x);
                    proof {
                        assert(out.deep_view() =~= seq![x.deep_view()] + restm);
                    }
                    Some((out, j3))
                },
                None => None,
            }
        },
        None => {
            match expect_exec(v, j, "\n  ]") {
                Some(j2) => {
                    let mut out: Vec<crate::plan::Conflict> = Vec::new();
                    out.push(x);
                    proof {
                        assert(out.deep_view() =~= seq![x.deep_view()]);
                    }
                    Some((out, j2))
                },
                None => None,
            }
        },
    }
}

/// Parses conflicts at position `i`.
fn parse_conflicts_exec(v: &Vec<char>, i: usize, fuel: usize) -> (r: Option<(Vec<crate::plan::Conflict>, usize)>)
    ensures
        match r {
            Some((w, j)) => parse_conflicts(v@, i as int, fuel as nat) == Some(
                (w.deep_view(), j as int),
            ) && j <= v@.len(),
            None => parse_conflicts(v@, i as int, fuel as nat) is None,
        },
{
    match expect_exec(v, i, "[]") {
        Some(j) => {
            let out: Vec<crate::plan::Conflict> = Vec::new();
            proof {
                assert(out.deep_view() =~= Seq::<<crate::plan::Conflict as DeepView>::V>::empty());
            }
            Some((out, j))
        },
        None => {
            match expect_exec(v, i, "[\n") {
                Some(j) => parse_conflicts_items_exec(v, j, fuel),
                None => None,
            }
        },
    }
}

/// Parses the items of provs at position `i`.
fn parse_provs_items_exec(v: &Vec<char>, i: usize, fuel: usize) -> (r: Option<
    (Vec<crate::plan::ProvenanceAction>, usize),
>)
    ensures
        match r {
            Some((w, j)) => parse_provs_items(v@, i as int, fuel as nat) == Some(
                (w.deep_view(), j as int),
            ) && j <= v@.len(),
            None => parse_provs_items(v@, i as int, fuel as nat) is None,
        },
    decreases fuel,
{
    if fuel == 0 {
        return None;
    }
    let (x, j) = match parse_prov_exec(v, i) {
        Some(p) => p,
        None => {
            return None;
        },
    };
    match expect_exec(v, j, ",\n") {
        Some(j2) => {
            match parse_provs_items_exec(v, j2, fuel - 1) {
                Some((rest, j3)) => {
                    let ghost restm = rest.deep_view();
                    let mut out = rest;
                    out.insert(0, x);
                    proof {
                        assert(out.deep_view() =~= seq![x.deep_view()] + restm);
                    }
                    Some((out, j3))
                },
                None => None,
            }
        },
        None => {
            match expect_exec(v, j, "\n  ]") {
                Some(j2) => {
                    let mut out: Vec<crate::plan::ProvenanceAction> = Vec::new();
                    out.push(x);
                    proof {
                        assert(out.deep_view() =~= seq![x.deep_view()]);
                    }
                    Some((out, j2))
                },
                None => None,
            }
        },
    }
}

/// Parses provs at position `i`.
fn parse_provs_exec(v: &Vec<char>, i: usize, fuel: usize) -> (r: Option<(Vec<crate::plan::ProvenanceAction>, usize)>)
    ensures
        match r {
            Some((w, j)) => parse_provs(v@, i as int, fuel as nat) == Some(
                (w.deep_view(), j as int),
            ) && j <= v@.len(),
            None => parse_provs(v@, i as int, fuel as nat) is None,
        },
{
    match expect_exec(v, i, "[]") {
        Some(j) => {
            let out: Vec<crate::plan::ProvenanceAction> = Vec::new();
            proof {
                assert(out.deep_view() =~= Seq::<<crate::plan::ProvenanceAction as DeepView>::V>::empty());
            }
            Some((out, j))
        },
        None => {
            match expect_exec(v, i, "[\n") {
                Some(j) => parse_provs_items_exec(v, j, fuel),
                None => None,
            }
        },
    }
}

/// Parses the items of sums at position `i`.
fn parse_sums_items_exec(v: &Vec<char>, i: usize, fuel: usize) -> (r: Option<
    (Vec<(String, String)>, usize),
>)
    ensures
        match r {
            Some((w, j)) => parse_sums_items(v@, i as int, fuel as nat) == Some(
                (w.deep_view(), j as int),
            ) && j <= v@.len(),
            None => parse_sums_items(v@, i as int, fuel as nat) is None,
        },
    decreases fuel,
{
    if fuel == 0 {
        return None;
    }
    let (x, j) = match parse_sum_exec(v, i) {
        Some(p) => p,
        None => {
            return None;
        },
    };
    match expect_exec(v, j, ",\n") {
        Some(j2) => {
            match parse_sums_items_exec(v, j2, fuel - 1) {
                Some((rest, j3)) => {
                    let ghost restm = rest.deep_view();
                    let mut out = rest;
                    out.insert(0, x);
                    proof {
                        assert(out.deep_view() =~= seq![x.deep_view()] + restm);
                    }
                    Some((out, j3))
                },
                None => None,
            }
        },
        None => {
            match expect_exec(v, j, "\n  }") {
                Some(j2) => {
                    let mut out: Vec<(String, String)> = Vec::new();
                    out.push(x);
                    proof {
                        assert(out.deep_view() =~= seq![x.deep_view()]);
                    }
                    Some((out, j2))
                },
                None => None,
            }
        },
    }
}

/// Parses sums at position `i`.
fn parse_sums_exec(v: &Vec<char>, i: usize, fuel: usize) -> (r: Option<(Vec<(String, String)>, usize)>)
    ensures
        match r {
            Some((w, j)) => parse_sums(v@, i as int, fuel as nat) == Some(
                (w.deep_view(), j as int),
            ) && j <= v@.len(),
            None => parse_sums(v@, i as int, fuel as nat) is None,
        },
{
    match expect_exec(v, i, "{}") {
        Some(j) => {
            let out: Vec<(String, String)> = Vec::new();
            proof {
                assert(out.deep_view() =~= Seq::<<(String, String) as DeepView>::V>::empty());
            }
            Some((out, j))
        },
        None => {
            match expect_exec(v, i, "{\n") {
                Some(j) => parse_sums_items_exec(v, j, fuel),
                None => None,
            }
        },
    }
}

/// An error from reading a serialized document.
#[derive(Debug, Clone)]
pub struct JsonError {
    /// What went wrong.
    pub message: String,
}

/// Builds a parse error.
fn json_error() -> (r: JsonError)
    ensures
        r.message@ == "the text is not a canonical plan document"@,
{
    JsonError { message: String::from_str("the text is not a canonical plan document") }
}

/// Parses the front half of a plan at position `i`.
fn parse_plan_front_exec(v: &Vec<char>, i: usize) -> (r: Option<
    ((crate::plan::Operation, String, String, Vec<crate::plan::FileMutation>), usize),
>)
    ensures
        match r {
            Some(((o, cn, cv, ms), j)) => parse_plan_front(v@, i as int) == Some(
                ((o, cn@, cv@, ms.deep_view()), j as int),
            ) && j <= v@.len(),
            None => parse_plan_front(v@, i as int) is None,
        },
{
    let fuel = v.len();
    let j0 = match expect_exec(v, i, "{\n  \"operation\": ") {
        Some(j) => j,
        None => {
            return None;
        },
    };
    let (operation, j1) = match parse_op_exec(v, j0) {
        Some(x) => x,
        None => {
            return None;
        },
    };
    let j2 = match expect_exec(v, j1, ",\n  \"component_name\": ") {
        Some(j) => j,
        None => {
            return None;
        },
    };
    let (component_name, j3) = match parse_string_exec(v, j2) {
        Some(x) => x,
        None => {
            return None;
        },
    };
    let j4 = match expect_exec(v, j3, ",\n  \"component_version\": ") {
        Some(j) => j,
        None => {
            return None;
        },
    };
    let (component_version, j5) = match parse_string_exec(v, j4) {
        Some(x) => x,
        None => {
            return None;
        },
    };
    let j6 = match expect_exec(v, j5, ",\n  \"mutations\": ") {
        Some(j) => j,
        None => {
            return None;
        },
    };
    let (mutations, j7) = match parse_mutations_exec(v, j6, fuel) {
        Some(x) => x,
        None => {
            return None;
        },
    };
    Some(((operation, component_name, component_version, mutations), j7))
}

/// Parses conflicts and provenance actions at position `i`.
fn parse_plan_b1_exec(v: &Vec<char>, i: usize) -> (r: Option<
    ((Vec<crate::plan::Conflict>, Vec<crate::plan::ProvenanceAction>), usize),
>)
    ensures
        match r {
            Some(((cs, ps), j)) => parse_plan_b1(v@, i as int) == Some(
                ((cs.deep_view(), ps.deep_view()), j as int),
            ) && j <= v@.len(),
            None => parse_plan_b1(v@, i as int) is None,
        },
{
    let fuel = v.len();
    let j8 = match expect_exec(v, i, ",\n  \"conflicts\": ") {
        Some(j) => j,
        None => {
            return None;
        },
    };
    let (conflicts, j9) = match parse_conflicts_exec(v, j8, fuel) {
        Some(x) => x,
        None => {
            return None;
        },
    };
    let j10 = match expect_exec(v, j9, ",\n  \"provenance_actions\": ") {
        Some(j) => j,
        None => {
            return None;
        },
    };
    let (provenance_actions, j11) = match parse_provs_exec(v, j10, fuel) {
        Some(x) => x,
        None => {
            return None;
        },
    };
    Some(((conflicts, provenance_actions), j11))
}

/// Parses checksums and the layout name at position `i`.
fn parse_plan_b2_exec(v: &Vec<char>, i: usize) -> (r: Option<
    ((Vec<(String, String)>, String), usize),
>)
    ensures
        match r {
            Some(((ks, tl), j)) => parse_plan_b2(v@, i as int) == Some(
                ((ks.deep_view(), tl@), j as int),
            ) && j <= v@.len(),
            None => parse_plan_b2(v@, i as int) is None,
        },
{
    let fuel = v.len();
    let j12 = match expect_exec(v, i, ",\n  \"file_checksums\": ") {
        Some(j) => j,
        None => {
            return None;
        },
    };
    let (file_checksums, j13) = match parse_sums_exec(v, j12, fuel) {
        Some(x) => x,
        None => {
            return None;
        },
    };
    let j14 = match expect_exec(v, j13, ",\n  \"target_layout\": ") {
        Some(j) => j,
        None => {
            return None;
        },
    };
    let (target_layout, j15) = match parse_string_exec(v, j14) {
        Some(x) => x,
        None => {
            return None;
        },
    };
    let j16 = match expect_exec(v, j15, "\n}") {
        Some(j) => j,
        None => {
            return None;
        },
    };
    Some(((file_checksums, target_layout), j16))
}

/// Parses a whole plan at position `i`.
pub fn parse_plan_at_exec(v: &Vec<char>, i: usize) -> (r: Option<(crate::plan::PlanContract, usize)>)
    ensures
        match r {
            Some((p, j)) => parse_plan_at(v@, i as int) == Some((p.deep_view(), j as int)) && j
                <= v@.len(),
            None => parse_plan_at(v@, i as int) is None,
        },
{
    let ((operation, component_name, component_version, mutations), j) = match parse_plan_front_exec(
        v,
        i,
    ) {
        Some(x) => x,
        None => {
            return None;
        },
    };
    let ((conflicts, provenance_actions), j2) = match parse_plan_b1_exec(v, j) {
        Some(x) => x,
        None => {
            return None;
        },
    };
    let ((file_checksums, target_layout), j3) = match parse_plan_b2_exec(v, j2) {
        Some(x) => x,
        None => {
            return None;
        },
    };
    Some(
        (
            crate::plan::PlanContract {
                operation,
                component_name,
                component_version,
                mutations,
                conflicts,
                provenance_actions,
                file_checksums,
                target_layout,
            },
            j3,
        ),
    )
}

impl crate::plan::PlanContract {
    /// Serializes the plan to its canonical pretty-printed form.
    pub fn to_json(&self) -> (r: String)
        ensures
            r@ == print_plan(self.deep_view()),
    {
        let mut out = String::new();
        append_plan(&mut out, self);
        out
    }

    /// Reads a plan back from its canonical serialized form; the whole
    /// text must be one plan document as `to_json` writes it. Returns
    /// `Ok` exactly when the text is such a document.
    pub fn from_json(s: &str) -> (r: Result<crate::plan::PlanContract, JsonError>)
        ensures
            match r {
                Ok(p) => spec_parse_plan(s@) == Some(p.deep_view()),
                Err(_) => spec_parse_plan(s@) is None,
            },
    {
        let v = str_chars(s);
        match parse_plan_at_exec(&v, 0) {
            Some((p, j)) => {
                if j == v.len() {
                    Ok(p)
                } else {
                    Err(json_error())
                }
            },
            None => Err(json_error()),
        }
    }
}

/// Round trip, executably: serializing any plan and reading it back
/// yields a plan with the same model. The body is verified, so the
/// parse is proved to succeed and to reproduce the operation, names,
/// mutations, conflicts, provenance, checksums and layout exactly.
pub fn plan_round_trip(p: &crate::plan::PlanContract) -> (q: crate::plan::PlanContract)
    ensures
        q.deep_view() == p.deep_view(),
{
    let text = p.to_json();
    proof {
        lemma_plan_json_round_trip(p.deep_view());
    }
    match crate::plan::PlanContract::from_json(text.as_str()) {
        Ok(q) => q,
        Err(_) => unreached(),
    }
}

/// The sidecar document persisted next to an installed file,
/// carrying its attribution metadata.
pub open spec fn print_provenance_file(a: crate::plan::ProvenanceModel) -> Seq<char> {
    "{\n  \"source\": "@ + js(a.source) + ",\n  \"license\": "@ + js(a.license)
        + ",\n  \"modifications\": "@ + js(a.modifications)
        + ",\n  \"installed_by\": \"workbench-cli\"\n}"@
}

/// Builds the provenance sidecar document for one installed file.
pub fn provenance_json(pa: &crate::plan::ProvenanceAction) -> (r: String)
    ensures
        r@ == print_provenance_file(pa.deep_view()),
{
    let mut out = String::from_str("{\n  \"source\": ");
    append_json_string(&mut out, pa.source.as_str());
    out.append(",\n  \"license\": ");
    append_json_string(&mut out, pa.license.as_str());
    out.append(",\n  \"modifications\": ");
    append_json_string(&mut out, pa.modifications.as_str());
    out.append(",\n  \"installed_by\": \"workbench-cli\"\n}");
    assert(out@ =~= print_provenance_file(pa.deep_view()));
    out
}

} // verus!
