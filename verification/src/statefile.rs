//! The on-disk form of a run state: one JSON object, written compactly
//! with a fixed field order.  The encoder and decoder are both defined
//! here, down to the character, and decoding an encoded state gives the
//! state back.  Reading, writing and the atomic rename live outside;
//! this module owns the bytes' meaning.

use vstd::prelude::*;
use crate::errors::WorkflowError;
use crate::num::dec_digits;
use crate::num::dec_int;
use crate::num::dec_i64;
use crate::num::digit_char;
use crate::state::TicketRunState;
use crate::state::TicketRunStateView;
use crate::state::WorkflowState;
use crate::state::WorkflowStateView;
use crate::text::chars_of;
use crate::text::string_of;

verus! {

/// How one character is written inside a JSON string: quote, backslash
/// and the common control characters are escaped, everything else
/// stands as itself.
pub open spec fn esc_char(c: char) -> Seq<char> {
    if c == '"' {
        seq!['\\', '"']
    } else if c == '\\' {
        seq!['\\', '\\']
    } else if c == '\n' {
        seq!['\\', 'n']
    } else if c == '\r' {
        seq!['\\', 'r']
    } else if c == '\t' {
        seq!['\\', 't']
    } else {
        seq![c]
    }
}

/// A string's characters, escaped.
pub open spec fn esc(s: Seq<char>) -> Seq<char>
    decreases s.len(),
{
    if s.len() == 0 {
        Seq::empty()
    } else {
        esc(s.drop_last()) + esc_char(s.last())
    }
}

/// `esc` also decomposes at the front.
pub proof fn lemma_esc_front(s: Seq<char>)
    requires
        s.len() > 0,
    ensures
        esc(s) == esc_char(s[0]) + esc(s.subrange(1, s.len() as int)),
    decreases s.len(),
{
    if s.len() == 1 {
        assert(s.drop_last().len() == 0);
        assert(esc(s.drop_last()) == Seq::<char>::empty());
        assert(s.subrange(1, s.len() as int).len() == 0);
        assert(esc(s.subrange(1, s.len() as int)) == Seq::<char>::empty());
        assert(s.last() == s[0]);
        assert(esc(s) =~= esc_char(s[0]) + esc(s.subrange(1, s.len() as int)));
    } else {
        lemma_esc_front(s.drop_last());
        assert(s.drop_last()[0] == s[0]);
        assert(s.drop_last().subrange(1, s.drop_last().len() as int) =~= s.subrange(
            1,
            s.len() as int,
        ).drop_last());
        assert(s.subrange(1, s.len() as int).last() == s.last());
        assert(esc(s) =~= esc_char(s[0]) + esc(s.subrange(1, s.len() as int)));
    }
}

/// A JSON string literal: quoted, escaped content.
pub open spec fn enc_str(s: Seq<char>) -> Seq<char> {
    seq!['"'] + esc(s) + seq!['"']
}

/// An optional string: `null`, or the string literal.
pub open spec fn enc_opt_str(o: Option<Seq<char>>) -> Seq<char> {
    match o {
        None => "null"@,
        Some(s) => enc_str(s),
    }
}

/// An optional timestamp: `null`, or the decimal value.
pub open spec fn enc_opt_int(o: Option<i64>) -> Seq<char> {
    match o {
        None => "null"@,
        Some(n) => dec_int(n as int),
    }
}

/// One ticket entry, fields in fixed order.
pub open spec fn enc_entry(t: TicketRunStateView) -> Seq<char> {
    "{\"ticket_id\":"@ + enc_str(t.ticket_id) + ",\"status\":"@ + enc_str(t.status.name_spec())
        + ",\"worker_log\":"@ + enc_opt_str(t.worker_log) + ",\"review_log\":"@ + enc_opt_str(
        t.review_log,
    ) + ",\"note\":"@ + enc_opt_str(t.note) + ",\"started_at\":"@ + enc_opt_int(t.started_at)
        + ",\"finished_at\":"@ + enc_opt_int(t.finished_at) + "}"@
}

/// One `"id":{...}` member of the tickets object.
pub open spec fn enc_item(t: TicketRunStateView) -> Seq<char> {
    enc_str(t.ticket_id) + ":"@ + enc_entry(t)
}

/// The members of the tickets object, comma-separated, in order.
pub open spec fn enc_entries(tickets: Seq<TicketRunStateView>) -> Seq<char>
    decreases tickets.len(),
{
    if tickets.len() == 0 {
        Seq::empty()
    } else if tickets.len() == 1 {
        enc_item(tickets[0])
    } else {
        enc_entries(tickets.drop_last()) + ","@ + enc_item(tickets.last())
    }
}

/// The whole state document.
pub open spec fn enc_state(v: WorkflowStateView) -> Seq<char> {
    "{\"workflow_name\":"@ + enc_str(v.workflow_name) + ",\"tickets\":{"@ + enc_entries(v.tickets)
        + "}}"@
}

fn push_escaped(out: &mut Vec<char>, s: &str)
    ensures
        final(out)@ == old(out)@ + esc(s@),
{
    let v = chars_of(s);
    let n: usize = v.len();
    let mut i: usize = 0;
    while i < n
        invariant
            i <= n,
            n == v@.len(),
            v@ == s@,
            out@ == old(out)@ + esc(s@.take(i as int)),
        decreases n - i,
    {
        let c = v[i];
        let ghost before = out@;
        if c == '"' {
            out.push('\\');
            out.push('"');
        } else if c == '\\' {
            out.push('\\');
            out.push('\\');
        } else if c == '\n' {
            out.push('\\');
            out.push('n');
        } else if c == '\r' {
            out.push('\\');
            out.push('r');
        } else if c == '\t' {
            out.push('\\');
            out.push('t');
        } else {
            out.push(c);
        }
        proof {
            assert(out@ =~= before + esc_char(s@[i as int]));
            assert(s@.take(i + 1).drop_last() =~= s@.take(i as int));
            assert(s@.take(i + 1).last() == s@[i as int]);
            assert(out@ =~= old(out)@ + esc(s@.take(i + 1)));
        }
        i = i + 1;
    }
    proof {
        assert(s@.take(n as int) =~= s@);
    }
}

fn push_json_string(out: &mut Vec<char>, s: &str)
    ensures
        final(out)@ == old(out)@ + enc_str(s@),
{
    out.push('"');
    push_escaped(out, s);
    out.push('"');
    proof {
        assert(final(out)@ =~= old(out)@ + enc_str(s@));
    }
}

fn push_literal(out: &mut Vec<char>, lit: &str)
    ensures
        final(out)@ == old(out)@ + lit@,
{
    let mut v = chars_of(lit);
    out.append(&mut v);
}

fn push_opt_string(out: &mut Vec<char>, o: &Option<String>)
    ensures
        final(out)@ == old(out)@ + enc_opt_str(crate::manifest::opt_view(*o)),
{
    match o {
        None => push_literal(out, "null"),
        Some(s) => push_json_string(out, s.as_str()),
    }
}

fn push_opt_int(out: &mut Vec<char>, o: Option<i64>)
    ensures
        final(out)@ == old(out)@ + enc_opt_int(o),
{
    match o {
        None => push_literal(out, "null"),
        Some(n) => {
            let mut d = dec_i64(n);
            out.append(&mut d);
        },
    }
}

fn push_entry(out: &mut Vec<char>, t: &TicketRunState)
    ensures
        final(out)@ == old(out)@ + enc_entry(t@),
{
    push_literal(out, "{\"ticket_id\":");
    push_json_string(out, t.ticket_id.as_str());
    push_literal(out, ",\"status\":");
    let name = t.status.status_name();
    push_json_string(out, name.as_str());
    push_literal(out, ",\"worker_log\":");
    push_opt_string(out, &t.worker_log);
    push_literal(out, ",\"review_log\":");
    push_opt_string(out, &t.review_log);
    push_literal(out, ",\"note\":");
    push_opt_string(out, &t.note);
    push_literal(out, ",\"started_at\":");
    push_opt_int(out, t.started_at);
    push_literal(out, ",\"finished_at\":");
    push_opt_int(out, t.finished_at);
    push_literal(out, "}");
    proof {
        assert(final(out)@ =~= old(out)@ + enc_entry(t@));
    }
}

/// `enc_entries` also decomposes at the back for two or more entries.
proof fn lemma_enc_entries_back(tickets: Seq<TicketRunStateView>)
    requires
        tickets.len() >= 2,
    ensures
        enc_entries(tickets) == enc_entries(tickets.drop_last()) + ","@ + enc_item(tickets.last()),
{
}

/// Encode a run state as its JSON document.
pub fn encode_state(state: &WorkflowState) -> (r: String)
    ensures
        r@ == enc_state(state@),
{
    let mut out: Vec<char> = Vec::new();
    push_literal(&mut out, "{\"workflow_name\":");
    push_json_string(&mut out, state.workflow_name.as_str());
    push_literal(&mut out, ",\"tickets\":{");
    let ghost head = out@;
    let n: usize = state.tickets.len();
    let mut i: usize = 0;
    while i < n
        invariant
            i <= n,
            n == state@.tickets.len(),
            head == "{\"workflow_name\":"@ + enc_str(state@.workflow_name) + ",\"tickets\":{"@,
            out@ == head + enc_entries(state@.tickets.take(i as int)),
        decreases n - i,
    {
        let ghost before = out@;
        if i > 0 {
            push_literal(&mut out, ",");
        }
        push_json_string(&mut out, state.tickets[i].ticket_id.as_str());
        push_literal(&mut out, ":");
        push_entry(&mut out, &state.tickets[i]);
        proof {
            let tk = state@.tickets;
            assert(state@.tickets[i as int] == state.tickets@[i as int]@);
            assert(tk.take(i + 1).drop_last() =~= tk.take(i as int));
            assert(tk.take(i + 1).last() == tk[i as int]);
            if i == 0 {
                assert(out@ =~= head + enc_item(tk[0]));
                assert(enc_entries(tk.take(1)) == enc_item(tk.take(1)[0]));
                assert(tk.take(1)[0] == tk[0]);
                assert(out@ =~= head + enc_entries(tk.take(1)));
            } else {
                lemma_enc_entries_back(tk.take(i + 1));
                assert(out@ =~= before + ","@ + enc_item(tk[i as int]));
                assert(out@ =~= head + enc_entries(tk.take(i + 1)));
            }
        }
        i = i + 1;
    }
    proof {
        assert(state@.tickets.take(n as int) =~= state@.tickets);
    }
    push_literal(&mut out, "}}");
    proof {
        assert(out@ =~= enc_state(state@));
    }
    string_of(&out)
}

/// The characters of `t` from index `i` on.
pub open spec fn suffix(t: Seq<char>, i: int) -> Seq<char> {
    t.subrange(i, t.len() as int)
}

proof fn lemma_suffix_step(t: Seq<char>, i: int, k: int)
    requires
        0 <= i,
        0 <= k,
        i + k <= t.len(),
    ensures
        suffix(t, i).subrange(k, suffix(t, i).len() as int) == suffix(t, i + k),
{
    assert(suffix(t, i).subrange(k, suffix(t, i).len() as int) =~= suffix(t, i + k));
}

/// The character an escape pair `\x` stands for, if `x` is a
/// recognized escape.
pub open spec fn unesc_char(c: char) -> Option<char> {
    if c == '"' {
        Some('"')
    } else if c == '\\' {
        Some('\\')
    } else if c == 'n' {
        Some('\n')
    } else if c == 'r' {
        Some('\r')
    } else if c == 't' {
        Some('\t')
    } else {
        None
    }
}

/// Parse a string body (the opening quote already consumed) up to its
/// closing quote; yields the unescaped content and the remainder.
pub open spec fn parse_string(t: Seq<char>) -> Option<(Seq<char>, Seq<char>)>
    decreases t.len(),
{
    if t.len() == 0 {
        None
    } else if t[0] == '"' {
        Some((Seq::empty(), t.subrange(1, t.len() as int)))
    } else if t[0] == '\\' {
        if t.len() < 2 {
            None
        } else {
            match unesc_char(t[1]) {
                Some(c) => match parse_string(t.subrange(2, t.len() as int)) {
                    Some(p) => Some((seq![c] + p.0, p.1)),
                    None => None,
                },
                None => None,
            }
        }
    } else {
        match parse_string(t.subrange(1, t.len() as int)) {
            Some(p) => Some((seq![t[0]] + p.0, p.1)),
            None => None,
        }
    }
}

/// Consume an exact literal prefix.
pub open spec fn expect(t: Seq<char>, lit: Seq<char>) -> Option<Seq<char>> {
    if t.len() >= lit.len() && t.take(lit.len() as int) == lit {
        Some(t.skip(lit.len() as int))
    } else {
        None
    }
}

pub open spec fn is_digit(c: char) -> bool {
    '0' <= c && c <= '9'
}

pub open spec fn digit_val(c: char) -> int {
    c as u32 - 48
}

/// How many digits lead `t`.
pub open spec fn digit_count(t: Seq<char>) -> int
    decreases t.len(),
{
    if t.len() > 0 && is_digit(t[0]) {
        1 + digit_count(t.subrange(1, t.len() as int))
    } else {
        0
    }
}

/// The value of a digit run, most significant first.
pub open spec fn digits_value(ds: Seq<char>) -> int
    decreases ds.len(),
{
    if ds.len() == 0 {
        0
    } else {
        digits_value(ds.drop_last()) * 10 + digit_val(ds.last())
    }
}

pub open spec fn pow10(k: nat) -> int
    decreases k,
{
    if k == 0 {
        1
    } else {
        10 * pow10((k - 1) as nat)
    }
}

proof fn lemma_pow10_mono(a: nat, b: nat)
    requires
        a <= b,
    ensures
        1 <= pow10(a) <= pow10(b),
    decreases b,
{
    if b > 0 {
        if a == b {
            lemma_pow10_mono((a - 1) as nat, (b - 1) as nat);
        } else {
            lemma_pow10_mono(a, (b - 1) as nat);
        }
    }
}

proof fn lemma_digits_value_bound(ds: Seq<char>)
    requires
        forall|j: int| 0 <= j < ds.len() ==> is_digit(ds[j]),
    ensures
        0 <= digits_value(ds) < pow10(ds.len() as nat),
    decreases ds.len(),
{
    if ds.len() > 0 {
        lemma_digits_value_bound(ds.drop_last());
        assert(is_digit(ds.last()));
        assert(0 <= digit_val(ds.last()) <= 9);
    }
}

/// Parse a decimal integer (optional leading `-`, at most 19 digits,
/// within the signed 64-bit range).
pub open spec fn parse_int(t: Seq<char>) -> Option<(i64, Seq<char>)> {
    let neg = t.len() > 0 && t[0] == '-';
    let t2 = if neg {
        t.subrange(1, t.len() as int)
    } else {
        t
    };
    let k = digit_count(t2);
    if k == 0 || k > 19 {
        None
    } else {
        let v = digits_value(t2.take(k));
        let sv = if neg {
            -v
        } else {
            v
        };
        if sv < -0x8000000000000000 || sv > 0x7fffffffffffffff {
            None
        } else {
            Some((sv as i64, t2.skip(k)))
        }
    }
}

/// `null`, or a string literal.
pub open spec fn parse_opt_string(t: Seq<char>) -> Option<(Option<Seq<char>>, Seq<char>)> {
    if t.len() > 0 && t[0] == '"' {
        match parse_string(t.subrange(1, t.len() as int)) {
            Some(p) => Some((Some(p.0), p.1)),
            None => None,
        }
    } else {
        match expect(t, "null"@) {
            Some(r) => Some((None, r)),
            None => None,
        }
    }
}

/// `null`, or a decimal integer.
pub open spec fn parse_opt_int(t: Seq<char>) -> Option<(Option<i64>, Seq<char>)> {
    match expect(t, "null"@) {
        Some(r) => Some((None, r)),
        None => match parse_int(t) {
            Some(p) => Some((Some(p.0), p.1)),
            None => None,
        },
    }
}

/// One ticket entry object, fields in the encoder's order.
pub open spec fn parse_entry(t: Seq<char>) -> Option<(TicketRunStateView, Seq<char>)> {
    match expect(t, "{\"ticket_id\":\""@) {
        None => None,
        Some(r0) => match parse_string(r0) {
            None => None,
            Some((id, r1)) => match expect(r1, ",\"status\":\""@) {
                None => None,
                Some(r2) => match parse_string(r2) {
                    None => None,
                    Some((sname, r3)) => match crate::state::status_of_name(sname) {
                        None => None,
                        Some(st) => match expect(r3, ",\"worker_log\":"@) {
                            None => None,
                            Some(r4) => match parse_opt_string(r4) {
                                None => None,
                                Some((wl, r5)) => match expect(r5, ",\"review_log\":"@) {
                                    None => None,
                                    Some(r6) => match parse_opt_string(r6) {
                                        None => None,
                                        Some((rl, r7)) => match expect(r7, ",\"note\":"@) {
                                            None => None,
                                            Some(r8) => match parse_opt_string(r8) {
                                                None => None,
                                                Some((note, r9)) => match expect(
                                                    r9,
                                                    ",\"started_at\":"@,
                                                ) {
                                                    None => None,
                                                    Some(r10) => match parse_opt_int(r10) {
                                                        None => None,
                                                        Some((sa, r11)) => match expect(
                                                            r11,
                                                            ",\"finished_at\":"@,
                                                        ) {
                                                            None => None,
                                                            Some(r12) => match parse_opt_int(r12) {
                                                                None => None,
                                                                Some((fa, r13)) => match expect(
                                                                    r13,
                                                                    "}"@,
                                                                ) {
                                                                    None => None,
                                                                    Some(r14) => Some(
                                                                        (
                                                                            TicketRunStateView {
                                                                                ticket_id: id,
                                                                                status: st,
                                                                                worker_log: wl,
                                                                                review_log: rl,
                                                                                note: note,
                                                                                started_at: sa,
                                                                                finished_at: fa,
                                                                            },
                                                                            r14,
                                                                        ),
                                                                    ),
                                                                },
                                                            },
                                                        },
                                                    },
                                                },
                                            },
                                        },
                                    },
                                },
                            },
                        },
                    },
                },
            },
        },
    }
}

/// The members of the tickets object, including its closing brace.
/// Each member's key must repeat the entry's own ticket id.
pub open spec fn parse_items(t: Seq<char>, fuel: nat) -> Option<
    (Seq<TicketRunStateView>, Seq<char>),
>
    decreases fuel,
{
    if fuel == 0 {
        None
    } else if t.len() > 0 && t[0] == '}' {
        Some((Seq::empty(), t.subrange(1, t.len() as int)))
    } else if t.len() > 0 && t[0] == '"' {
        match parse_string(t.subrange(1, t.len() as int)) {
            None => None,
            Some((key, r1)) => match expect(r1, ":"@) {
                None => None,
                Some(r2) => match parse_entry(r2) {
                    None => None,
                    Some((entry, r3)) => if entry.ticket_id != key {
                        None
                    } else {
                        if r3.len() > 0 && r3[0] == ',' {
                            match parse_items(
                                r3.subrange(1, r3.len() as int),
                                (fuel - 1) as nat,
                            ) {
                                None => None,
                                Some((rest, r4)) => Some((seq![entry] + rest, r4)),
                            }
                        } else if r3.len() > 0 && r3[0] == '}' {
                            Some((seq![entry], r3.subrange(1, r3.len() as int)))
                        } else {
                            None
                        }
                    },
                },
            },
        }
    } else {
        None
    }
}

/// The whole state document.
pub open spec fn parse_state(t: Seq<char>) -> Option<(WorkflowStateView, Seq<char>)> {
    match expect(t, "{\"workflow_name\":\""@) {
        None => None,
        Some(r0) => match parse_string(r0) {
            None => None,
            Some((name, r1)) => match expect(r1, ",\"tickets\":{"@) {
                None => None,
                Some(r2) => match parse_items(r2, r2.len() as nat) {
                    None => None,
                    Some((tickets, r3)) => match expect(r3, "}"@) {
                        None => None,
                        Some(r4) => Some(
                            (WorkflowStateView { workflow_name: name, tickets }, r4),
                        ),
                    },
                },
            },
        },
    }
}

/// What decoding a document yields: the state, provided the document
/// parses completely and its entries carry pairwise distinct ids.
pub open spec fn decode_spec(t: Seq<char>) -> Option<WorkflowStateView> {
    match parse_state(t) {
        None => None,
        Some((v, rest)) => if rest.len() == 0 && crate::state::wf_state(v) {
            Some(v)
        } else {
            None
        },
    }
}

fn expect_at(buf: &Vec<char>, i: usize, lit: &str) -> (r: Option<usize>)
    requires
        i <= buf@.len(),
    ensures
        match r {
            Some(j) => i <= j <= buf@.len() && expect(suffix(buf@, i as int), lit@) == Some(
                suffix(buf@, j as int),
            ),
            None => expect(suffix(buf@, i as int), lit@) is None,
        },
{
    let m: usize = lit.unicode_len();
    let n: usize = buf.len();
    if n - i < m {
        return None;
    }
    let mut k: usize = 0;
    while k < m
        invariant
            k <= m,
            m == lit@.len(),
            i + m <= n,
            n == buf@.len(),
            forall|q: int| 0 <= q < k ==> buf@[i + q] == lit@[q],
        decreases m - k,
    {
        if buf[i + k] != lit.get_char(k) {
            proof {
                let t = suffix(buf@, i as int);
                if t.take(m as int) == lit@ {
                    assert(t.take(m as int)[k as int] == lit@[k as int]);
                    assert(t[k as int] == buf@[i + k]);
                    assert(false);
                }
            }
            return None;
        }
        k = k + 1;
    }
    proof {
        let t = suffix(buf@, i as int);
        assert(t.take(m as int) =~= lit@);
        assert(t.skip(m as int) =~= suffix(buf@, i + m));
    }
    Some(i + m)
}

fn unesc_exec(c: char) -> (r: Option<char>)
    ensures
        r == unesc_char(c),
{
    if c == '"' {
        Some('"')
    } else if c == '\\' {
        Some('\\')
    } else if c == 'n' {
        Some('\n')
    } else if c == 'r' {
        Some('\r')
    } else if c == 't' {
        Some('\t')
    } else {
        None
    }
}

fn parse_string_at(buf: &Vec<char>, i: usize) -> (r: Option<(Vec<char>, usize)>)
    requires
        i <= buf@.len(),
    ensures
        match r {
            Some(p) => i <= p.1 <= buf@.len() && parse_string(suffix(buf@, i as int)) == Some(
                (p.0@, suffix(buf@, p.1 as int)),
            ),
            None => parse_string(suffix(buf@, i as int)) is None,
        },
{
    let n: usize = buf.len();
    let mut acc: Vec<char> = Vec::new();
    let mut cur: usize = i;
    loop
        invariant
            i <= cur <= n,
            n == buf@.len(),
            match parse_string(suffix(buf@, cur as int)) {
                Some(p) => parse_string(suffix(buf@, i as int)) == Some((acc@ + p.0, p.1)),
                None => parse_string(suffix(buf@, i as int)) is None,
            },
        decreases n - cur,
    {
        if cur >= n {
            proof {
                assert(suffix(buf@, cur as int).len() == 0);
            }
            return None;
        }
        let c = buf[cur];
        proof {
            assert(suffix(buf@, cur as int)[0] == c);
        }
        if c == '"' {
            proof {
                let t = suffix(buf@, cur as int);
                lemma_suffix_step(buf@, cur as int, 1);
                assert(parse_string(t) == Some(
                    (Seq::<char>::empty(), suffix(buf@, cur + 1)),
                ));
                assert(acc@ + Seq::<char>::empty() =~= acc@);
            }
            return Some((acc, cur + 1));
        } else if c == '\\' {
            if cur + 1 >= n {
                proof {
                    assert(suffix(buf@, cur as int).len() < 2);
                }
                return None;
            }
            let e = buf[cur + 1];
            proof {
                assert(suffix(buf@, cur as int)[1] == e);
            }
            match unesc_exec(e) {
                None => {
                    return None;
                },
                Some(u) => {
                    let ghost old_acc = acc@;
                    acc.push(u);
                    proof {
                        let t = suffix(buf@, cur as int);
                        lemma_suffix_step(buf@, cur as int, 2);
                        match parse_string(suffix(buf@, cur + 2)) {
                            Some(p) => {
                                assert(parse_string(t) == Some((seq![u] + p.0, p.1)));
                                assert(old_acc + (seq![u] + p.0) =~= acc@ + p.0);
                            },
                            None => {
                                assert(parse_string(t) is None);
                            },
                        }
                    }
                    cur = cur + 2;
                },
            }
        } else {
            let ghost old_acc = acc@;
            acc.push(c);
            proof {
                let t = suffix(buf@, cur as int);
                lemma_suffix_step(buf@, cur as int, 1);
                match parse_string(suffix(buf@, cur + 1)) {
                    Some(p) => {
                        assert(parse_string(t) == Some((seq![c] + p.0, p.1)));
                        assert(old_acc + (seq![c] + p.0) =~= acc@ + p.0);
                    },
                    None => {
                        assert(parse_string(t) is None);
                    },
                }
            }
            cur = cur + 1;
        }
    }
}

fn is_digit_exec(c: char) -> (r: bool)
    ensures
        r == is_digit(c),
{
    '0' <= c && c <= '9'
}

fn parse_int_at(buf: &Vec<char>, i: usize) -> (r: Option<(i64, usize)>)
    requires
        i <= buf@.len(),
    ensures
        match r {
            Some(p) => i <= p.1 <= buf@.len() && parse_int(suffix(buf@, i as int)) == Some(
                (p.0, suffix(buf@, p.1 as int)),
            ),
            None => parse_int(suffix(buf@, i as int)) is None,
        },
{
    let n: usize = buf.len();
    let ghost t = suffix(buf@, i as int);
    let mut cur: usize = i;
    let mut neg: bool = false;
    if cur < n && buf[cur] == '-' {
        neg = true;
        cur = cur + 1;
    }
    let ghost t2 = suffix(buf@, cur as int);
    proof {
        if neg {
            lemma_suffix_step(buf@, i as int, 1);
            assert(t.len() > 0 && t[0] == '-');
            assert(t.subrange(1, t.len() as int) == t2);
        } else {
            assert(!(t.len() > 0 && t[0] == '-'));
        }
    }
    let start: usize = cur;
    while cur < n && is_digit_exec(buf[cur])
        invariant
            start <= cur <= n,
            n == buf@.len(),
            t2 == suffix(buf@, start as int),
            forall|q: int| start <= q < cur ==> is_digit(buf@[q]),
            digit_count(t2) == (cur - start) + digit_count(suffix(buf@, cur as int)),
        decreases n - cur,
    {
        proof {
            assert(suffix(buf@, cur as int)[0] == buf@[cur as int]);
            lemma_suffix_step(buf@, cur as int, 1);
        }
        cur = cur + 1;
    }
    proof {
        if cur < n {
            assert(suffix(buf@, cur as int)[0] == buf@[cur as int]);
            assert(digit_count(suffix(buf@, cur as int)) == 0);
        } else {
            assert(suffix(buf@, cur as int).len() == 0);
            assert(digit_count(suffix(buf@, cur as int)) == 0);
        }
    }
    let k: usize = cur - start;
    proof {
        assert(digit_count(t2) == k);
    }
    if k == 0 || k > 19 {
        return None;
    }
    let ghost ds = t2.take(k as int);
    proof {
        assert(ds =~= buf@.subrange(start as int, cur as int));
        assert(forall|j: int| 0 <= j < ds.len() ==> is_digit(ds[j]));
    }
    let mut acc: i128 = 0;
    let mut j: usize = start;
    while j < cur
        invariant
            start <= j <= cur <= n,
            n == buf@.len(),
            cur - start == k,
            1 <= k <= 19,
            ds == buf@.subrange(start as int, cur as int),
            forall|q: int| 0 <= q < ds.len() ==> is_digit(ds[q]),
            acc == digits_value(buf@.subrange(start as int, j as int)),
            0 <= acc < pow10((j - start) as nat),
        decreases cur - j,
    {
        let c = buf[j];
        proof {
            assert(ds[j - start] == buf@[j as int]);
            assert(is_digit(c));
            lemma_pow10_mono(((j - start) + 1) as nat, 19);
            lemma_pow10_mono(19, 19);
            assert(pow10(19) == 10000000000000000000) by {
                reveal_with_fuel(pow10, 20);
            };
        }
        let d: i128 = (c as u32 - 48) as i128;
        acc = acc * 10 + d;
        proof {
            let before = buf@.subrange(start as int, j as int);
            let after = buf@.subrange(start as int, j + 1);
            assert(after.drop_last() =~= before);
            assert(after.last() == buf@[j as int]);
            assert(acc == digits_value(after));
        }
        j = j + 1;
    }
    proof {
        assert(buf@.subrange(start as int, cur as int) == ds);
        assert(acc == digits_value(ds));
        lemma_digits_value_bound(ds);
    }
    if neg {
        if acc > 9223372036854775808i128 {
            return None;
        }
        let v: i64 = (-acc) as i64;
        proof {
            assert(t2.skip(k as int) =~= suffix(buf@, cur as int));
        }
        Some((v, cur))
    } else {
        if acc > 9223372036854775807i128 {
            return None;
        }
        let v: i64 = acc as i64;
        proof {
            assert(t2.skip(k as int) =~= suffix(buf@, cur as int));
        }
        Some((v, cur))
    }
}

fn parse_opt_string_at(buf: &Vec<char>, i: usize) -> (r: Option<(Option<Vec<char>>, usize)>)
    requires
        i <= buf@.len(),
    ensures
        match r {
            Some(p) => i <= p.1 <= buf@.len() && parse_opt_string(suffix(buf@, i as int)) == Some(
                (
                    match p.0 {
                        Some(v) => Some(v@),
                        None => None,
                    },
                    suffix(buf@, p.1 as int),
                ),
            ),
            None => parse_opt_string(suffix(buf@, i as int)) is None,
        },
{
    let n: usize = buf.len();
    if i < n && buf[i] == '"' {
        proof {
            assert(suffix(buf@, i as int)[0] == '"');
            lemma_suffix_step(buf@, i as int, 1);
        }
        match parse_string_at(buf, i + 1) {
            Some((v, j)) => Some((Some(v), j)),
            None => None,
        }
    } else {
        proof {
            if suffix(buf@, i as int).len() > 0 {
                assert(suffix(buf@, i as int)[0] == buf@[i as int]);
            }
        }
        match expect_at(buf, i, "null") {
            Some(j) => Some((None, j)),
            None => None,
        }
    }
}

fn parse_opt_int_at(buf: &Vec<char>, i: usize) -> (r: Option<(Option<i64>, usize)>)
    requires
        i <= buf@.len(),
    ensures
        match r {
            Some(p) => i <= p.1 <= buf@.len() && parse_opt_int(suffix(buf@, i as int)) == Some(
                (p.0, suffix(buf@, p.1 as int)),
            ),
            None => parse_opt_int(suffix(buf@, i as int)) is None,
        },
{
    match expect_at(buf, i, "null") {
        Some(j) => Some((None, j)),
        None => {
            match parse_int_at(buf, i) {
                Some((v, j)) => Some((Some(v), j)),
                None => None,
            }
        },
    }
}

fn parse_entry_at(buf: &Vec<char>, i: usize) -> (r: Option<(TicketRunState, usize)>)
    requires
        i <= buf@.len(),
    ensures
        match r {
            Some(p) => i <= p.1 <= buf@.len() && parse_entry(suffix(buf@, i as int)) == Some(
                (p.0@, suffix(buf@, p.1 as int)),
            ),
            None => parse_entry(suffix(buf@, i as int)) is None,
        },
{
    let r0 = match expect_at(buf, i, "{\"ticket_id\":\"") {
        None => {
            return None;
        },
        Some(j) => j,
    };
    let (idv, r1) = match parse_string_at(buf, r0) {
        None => {
            return None;
        },
        Some(p) => p,
    };
    let r2 = match expect_at(buf, r1, ",\"status\":\"") {
        None => {
            return None;
        },
        Some(j) => j,
    };
    let (namev, r3) = match parse_string_at(buf, r2) {
        None => {
            return None;
        },
        Some(p) => p,
    };
    let name = string_of(&namev);
    let st = match crate::state::TicketStatus::parse_status(name.as_str()) {
        None => {
            return None;
        },
        Some(s) => s,
    };
    let r4 = match expect_at(buf, r3, ",\"worker_log\":") {
        None => {
            return None;
        },
        Some(j) => j,
    };
    let (wl, r5) = match parse_opt_string_at(buf, r4) {
        None => {
            return None;
        },
        Some(p) => p,
    };
    let r6 = match expect_at(buf, r5, ",\"review_log\":") {
        None => {
            return None;
        },
        Some(j) => j,
    };
    let (rl, r7) = match parse_opt_string_at(buf, r6) {
        None => {
            return None;
        },
        Some(p) => p,
    };
    let r8 = match expect_at(buf, r7, ",\"note\":") {
        None => {
            return None;
        },
        Some(j) => j,
    };
    let (note, r9) = match parse_opt_string_at(buf, r8) {
        None => {
            return None;
        },
        Some(p) => p,
    };
    let r10 = match expect_at(buf, r9, ",\"started_at\":") {
        None => {
            return None;
        },
        Some(j) => j,
    };
    let (sa, r11) = match parse_opt_int_at(buf, r10) {
        None => {
            return None;
        },
        Some(p) => p,
    };
    let r12 = match expect_at(buf, r11, ",\"finished_at\":") {
        None => {
            return None;
        },
        Some(j) => j,
    };
    let (fa, r13) = match parse_opt_int_at(buf, r12) {
        None => {
            return None;
        },
        Some(p) => p,
    };
    let r14 = match expect_at(buf, r13, "}") {
        None => {
            return None;
        },
        Some(j) => j,
    };
    let entry = TicketRunState {
        ticket_id: string_of(&idv),
        status: st,
        worker_log: match wl {
            Some(v) => Some(string_of(&v)),
            None => None,
        },
        review_log: match rl {
            Some(v) => Some(string_of(&v)),
            None => None,
        },
        note: match note {
            Some(v) => Some(string_of(&v)),
            None => None,
        },
        started_at: sa,
        finished_at: fa,
    };
    Some((entry, r14))
}

fn parse_items_at(buf: &Vec<char>, i: usize, fuel: usize) -> (r: Option<
    (Vec<TicketRunState>, usize),
>)
    requires
        i <= buf@.len(),
    ensures
        match r {
            Some(p) => i <= p.1 <= buf@.len() && parse_items(suffix(buf@, i as int), fuel as nat)
                == Some((p.0@.map_values(|t: TicketRunState| t@), suffix(buf@, p.1 as int))),
            None => parse_items(suffix(buf@, i as int), fuel as nat) is None,
        },
    decreases fuel,
{
    let n: usize = buf.len();
    if fuel == 0 {
        return None;
    }
    if i < n && buf[i] == '}' {
        proof {
            assert(suffix(buf@, i as int)[0] == '}');
            lemma_suffix_step(buf@, i as int, 1);
        }
        let out: Vec<TicketRunState> = Vec::new();
        proof {
            assert(out@.map_values(|t: TicketRunState| t@) =~= Seq::<TicketRunStateView>::empty());
        }
        return Some((out, i + 1));
    }
    if !(i < n && buf[i] == '"') {
        proof {
            if suffix(buf@, i as int).len() > 0 {
                assert(suffix(buf@, i as int)[0] == buf@[i as int]);
            }
        }
        return None;
    }
    proof {
        assert(suffix(buf@, i as int)[0] == '"');
        lemma_suffix_step(buf@, i as int, 1);
    }
    let (keyv, r1) = match parse_string_at(buf, i + 1) {
        None => {
            return None;
        },
        Some(p) => p,
    };
    let r2 = match expect_at(buf, r1, ":") {
        None => {
            return None;
        },
        Some(j) => j,
    };
    let (entry, r3) = match parse_entry_at(buf, r2) {
        None => {
            return None;
        },
        Some(p) => p,
    };
    if !crate::text::str_eq(entry.ticket_id.as_str(), string_of(&keyv).as_str()) {
        return None;
    }
    if r3 < n && buf[r3] == ',' {
        proof {
            assert(suffix(buf@, r3 as int)[0] == ',');
            lemma_suffix_step(buf@, r3 as int, 1);
        }
        let (mut rest, r4) = match parse_items_at(buf, r3 + 1, fuel - 1) {
            None => {
                return None;
            },
            Some(p) => p,
        };
        let ghost rest_views = rest@.map_values(|t: TicketRunState| t@);
        rest.insert(0, entry);
        proof {
            assert(rest@.map_values(|t: TicketRunState| t@) =~= seq![entry@] + rest_views);
        }
        return Some((rest, r4));
    }
    if r3 < n && buf[r3] == '}' {
        proof {
            assert(suffix(buf@, r3 as int)[0] == '}');
            lemma_suffix_step(buf@, r3 as int, 1);
        }
        let mut out: Vec<TicketRunState> = Vec::new();
        out.push(entry);
        proof {
            assert(out@.map_values(|t: TicketRunState| t@) =~= seq![out@[0]@]);
        }
        return Some((out, r3 + 1));
    }
    proof {
        if suffix(buf@, r3 as int).len() > 0 {
            assert(suffix(buf@, r3 as int)[0] == buf@[r3 as int]);
        }
    }
    None
}

/// Decode a state document; rejected documents yield the malformed
/// state error.
#[verifier::loop_isolation(false)]
pub fn decode_state(text: &str) -> (r: Result<WorkflowState, WorkflowError>)
    ensures
        match r {
            Ok(s) => decode_spec(text@) == Some(s@) && crate::state::wf_state(s@),
            Err(e) => decode_spec(text@) is None && (e matches WorkflowError::MalformedState),
        },
{
    let buf = chars_of(text);
    proof {
        assert(suffix(buf@, 0) =~= text@);
    }
    let n: usize = buf.len();
    let r0 = match expect_at(&buf, 0, "{\"workflow_name\":\"") {
        None => {
            return Err(WorkflowError::MalformedState);
        },
        Some(j) => j,
    };
    let (namev, r1) = match parse_string_at(&buf, r0) {
        None => {
            return Err(WorkflowError::MalformedState);
        },
        Some(p) => p,
    };
    let r2 = match expect_at(&buf, r1, ",\"tickets\":{") {
        None => {
            return Err(WorkflowError::MalformedState);
        },
        Some(j) => j,
    };
    proof {
        assert(suffix(buf@, r2 as int).len() == n - r2);
    }
    let (tickets, r3) = match parse_items_at(&buf, r2, n - r2) {
        None => {
            return Err(WorkflowError::MalformedState);
        },
        Some(p) => p,
    };
    let r4 = match expect_at(&buf, r3, "}") {
        None => {
            return Err(WorkflowError::MalformedState);
        },
        Some(j) => j,
    };
    if r4 != n {
        proof {
            assert(suffix(buf@, r4 as int).len() > 0);
        }
        return Err(WorkflowError::MalformedState);
    }
    proof {
        assert(suffix(buf@, r4 as int).len() == 0);
    }
    let state = WorkflowState { workflow_name: string_of(&namev), tickets };
    proof {
        assert(parse_state(text@) == Some((state@, suffix(buf@, r4 as int))));
    }
    let m: usize = state.tickets.len();
    let mut a: usize = 0;
    while a < m
        invariant
            a <= m,
            m == state@.tickets.len(),
            forall|x: int, y: int|
                0 <= x < y < a ==> state@.tickets[x].ticket_id != state@.tickets[y].ticket_id,
        decreases m - a,
    {
        let mut b: usize = 0;
        while b < a
            invariant
                b <= a < m,
                m == state@.tickets.len(),
                forall|x: int|
                    0 <= x < b ==> state@.tickets[x].ticket_id != state@.tickets[a as int].ticket_id,
            decreases a - b,
        {
            if crate::text::str_eq(
                state.tickets[b].ticket_id.as_str(),
                state.tickets[a].ticket_id.as_str(),
            ) {
                proof {
                    assert(state@.tickets[b as int].ticket_id == state.tickets@[b as int]@.ticket_id);
                    assert(state@.tickets[a as int].ticket_id == state.tickets@[a as int]@.ticket_id);
                    if crate::state::wf_state(state@) {
                        assert(state@.tickets[b as int].ticket_id != state@.tickets[
                            a as int].ticket_id);
                        assert(false);
                    }
                    assert(decode_spec(text@) is None);
                }
                return Err(WorkflowError::MalformedState);
            }
            proof {
                assert(state@.tickets[b as int].ticket_id == state.tickets@[b as int]@.ticket_id);
                assert(state@.tickets[a as int].ticket_id == state.tickets@[a as int]@.ticket_id);
            }
            b = b + 1;
        }
        a = a + 1;
    }
    proof {
        assert(crate::state::wf_state(state@));
    }
    Ok(state)
}

proof fn lemma_expect_round(lit: Seq<char>, rest: Seq<char>)
    ensures
        expect(lit + rest, lit) == Some(rest),
{
    let t = lit + rest;
    assert(t.take(lit.len() as int) =~= lit);
    assert(t.skip(lit.len() as int) =~= rest);
}

proof fn lemma_parse_string_round(s: Seq<char>, rest: Seq<char>)
    ensures
        parse_string(esc(s) + seq!['"'] + rest) == Some((s, rest)),
    decreases s.len(),
{
    let t = esc(s) + seq!['"'] + rest;
    if s.len() == 0 {
        assert(esc(s).len() == 0);
        assert(t[0] == '"');
        assert(t.subrange(1, t.len() as int) =~= rest);
        assert(s =~= Seq::<char>::empty());
    } else {
        lemma_esc_front(s);
        let s1 = s.subrange(1, s.len() as int);
        lemma_parse_string_round(s1, rest);
        let c = s[0];
        if c == '"' || c == '\\' || c == '\n' || c == '\r' || c == '\t' {
            assert(esc_char(c).len() == 2);
            assert(t[0] == '\\');
            assert(t[1] == esc_char(c)[1]);
            assert(unesc_char(esc_char(c)[1]) == Some(c));
            assert(t.subrange(2, t.len() as int) =~= esc(s1) + seq!['"'] + rest);
            assert(seq![c] + s1 =~= s);
        } else {
            assert(esc_char(c) =~= seq![c]);
            assert(t[0] == c);
            assert(c != '"' && c != '\\');
            assert(t.subrange(1, t.len() as int) =~= esc(s1) + seq!['"'] + rest);
            assert(seq![c] + s1 =~= s);
        }
    }
}

proof fn lemma_dec_digits_props(n: int)
    requires
        n >= 0,
    ensures
        dec_digits(n).len() >= 1,
        forall|j: int| 0 <= j < dec_digits(n).len() ==> is_digit(#[trigger] dec_digits(n)[j]),
        digits_value(dec_digits(n)) == n,
    decreases n,
{
    assert(digit_val('0') == 0);
    assert(digit_val('1') == 1);
    assert(digit_val('2') == 2);
    assert(digit_val('3') == 3);
    assert(digit_val('4') == 4);
    assert(digit_val('5') == 5);
    assert(digit_val('6') == 6);
    assert(digit_val('7') == 7);
    assert(digit_val('8') == 8);
    assert(digit_val('9') == 9);
    if n < 10 {
        assert(is_digit(digit_char(n)));
        let ds = dec_digits(n);
        assert(ds =~= seq![digit_char(n)]);
        assert(ds.drop_last() =~= Seq::<char>::empty());
        assert(digits_value(ds.drop_last()) == 0);
        assert(ds.last() == digit_char(n));
        assert(digits_value(ds) == 0 * 10 + digit_val(digit_char(n)));
        assert(digit_val(digit_char(n)) == n);
    } else {
        lemma_dec_digits_props(n / 10);
        vstd::arithmetic::div_mod::lemma_fundamental_div_mod(n, 10);
        let ds = dec_digits(n);
        assert(ds == dec_digits(n / 10).push(digit_char(n % 10)));
        assert(ds.drop_last() =~= dec_digits(n / 10));
        assert(ds.last() == digit_char(n % 10));
        assert(is_digit(digit_char(n % 10)));
        assert(digit_val(digit_char(n % 10)) == n % 10);
        assert(digits_value(ds) == (n / 10) * 10 + n % 10);
        assert forall|j: int| 0 <= j < ds.len() implies is_digit(#[trigger] ds[j]) by {
            if j < ds.len() - 1 {
                assert(ds[j] == dec_digits(n / 10)[j]);
            }
        };
    }
}

proof fn lemma_dec_digits_len(n: int, k: nat)
    requires
        0 <= n < pow10(k),
        k >= 1,
    ensures
        dec_digits(n).len() <= k,
    decreases n,
{
    if n < 10 {
    } else {
        assert(pow10(k) == 10 * pow10((k - 1) as nat));
        lemma_dec_digits_len(n / 10, (k - 1) as nat);
    }
}

proof fn lemma_digit_count_concat(ds: Seq<char>, rest: Seq<char>)
    requires
        forall|j: int| 0 <= j < ds.len() ==> is_digit(#[trigger] ds[j]),
        rest.len() == 0 || !is_digit(rest[0]),
    ensures
        digit_count(ds + rest) == ds.len(),
    decreases ds.len(),
{
    let t = ds + rest;
    if ds.len() == 0 {
        assert(t =~= rest);
    } else {
        let ds1 = ds.subrange(1, ds.len() as int);
        assert(forall|j: int| 0 <= j < ds1.len() ==> is_digit(#[trigger] ds1[j]));
        lemma_digit_count_concat(ds1, rest);
        assert(t[0] == ds[0]);
        assert(is_digit(t[0]));
        assert(t.subrange(1, t.len() as int) =~= ds1 + rest);
    }
}

proof fn lemma_pow10_19()
    ensures
        pow10(19) == 10000000000000000000,
{
    reveal_with_fuel(pow10, 21);
}

#[verifier::rlimit(100)]
proof fn lemma_parse_int_round(n: i64, rest: Seq<char>)
    requires
        rest.len() == 0 || !is_digit(rest[0]),
    ensures
        parse_int(dec_int(n as int) + rest) == Some((n, rest)),
{
    lemma_pow10_19();
    let t = dec_int(n as int) + rest;
    if n >= 0 {
        let ds = dec_digits(n as int);
        lemma_dec_digits_props(n as int);
        lemma_dec_digits_len(n as int, 19);
        assert(t =~= ds + rest);
        assert(is_digit(t[0]));
        assert(t[0] != '-');
        lemma_digit_count_concat(ds, rest);
        let k = digit_count(t);
        assert(k == ds.len());
        assert(1 <= k <= 19);
        assert(t.take(k) =~= ds);
        assert(digits_value(ds) == n as int);
        assert(t.skip(k) =~= rest);
    } else {
        let mag = -(n as int);
        let ds = dec_digits(mag);
        lemma_dec_digits_props(mag);
        lemma_dec_digits_len(mag, 19);
        assert(dec_int(n as int) == seq!['-'] + ds);
        assert(t =~= seq!['-'] + (ds + rest));
        assert(t[0] == '-');
        assert(t.len() > 0);
        let t2 = t.subrange(1, t.len() as int);
        assert(t2 =~= ds + rest);
        lemma_digit_count_concat(ds, rest);
        let k = digit_count(t2);
        assert(k == ds.len());
        assert(1 <= k <= 19);
        assert(t2.take(k) =~= ds);
        assert(digits_value(ds) == mag);
        assert(t2.skip(k) =~= rest);
    }
}

proof fn lemma_parse_opt_string_round(o: Option<Seq<char>>, rest: Seq<char>)
    ensures
        parse_opt_string(enc_opt_str(o) + rest) == Some((o, rest)),
{
    let t = enc_opt_str(o) + rest;
    match o {
        Some(s) => {
            assert(enc_str(s) == seq!['"'] + esc(s) + seq!['"']);
            assert(t[0] == '"');
            assert(t.subrange(1, t.len() as int) =~= esc(s) + seq!['"'] + rest);
            lemma_parse_string_round(s, rest);
        },
        None => {
            reveal_strlit("null");
            assert("null"@.len() == 4);
            assert(t =~= "null"@ + rest);
            assert(t[0] == 'n');
            assert(t[0] != '"');
            lemma_expect_round("null"@, rest);
        },
    }
}

proof fn lemma_parse_opt_int_round(o: Option<i64>, rest: Seq<char>)
    requires
        rest.len() == 0 || !is_digit(rest[0]),
    ensures
        parse_opt_int(enc_opt_int(o) + rest) == Some((o, rest)),
{
    let t = enc_opt_int(o) + rest;
    match o {
        None => {
            assert(t =~= "null"@ + rest);
            lemma_expect_round("null"@, rest);
        },
        Some(n) => {
            reveal_strlit("null");
            assert("null"@.len() == 4);
            lemma_parse_int_round(n, rest);
            let first = dec_int(n as int)[0];
            if n >= 0 {
                lemma_dec_digits_props(n as int);
                assert(is_digit(first));
            } else {
                assert(first == '-');
            }
            assert(t[0] == first);
            assert(first != 'n');
            if t.len() >= 4 && t.take(4) == "null"@ {
                assert(t.take(4)[0] == t[0]);
                assert(false);
            }
            assert(expect(t, "null"@) is None);
        },
    }
}

#[verifier::rlimit(100)]
proof fn lemma_parse_entry_round(t: TicketRunStateView, rest: Seq<char>)
    ensures
        parse_entry(enc_entry(t) + rest) == Some((t, rest)),
{
    reveal_strlit("{\"ticket_id\":");
    reveal_strlit("{\"ticket_id\":\"");
    reveal_strlit(",\"status\":");
    reveal_strlit(",\"status\":\"");
    reveal_strlit(",\"worker_log\":");
    reveal_strlit(",\"review_log\":");
    reveal_strlit(",\"note\":");
    reveal_strlit(",\"started_at\":");
    reveal_strlit(",\"finished_at\":");
    reveal_strlit("}");
    let full = enc_entry(t) + rest;
    let s13 = "}"@ + rest;
    let s12 = enc_opt_int(t.finished_at) + s13;
    let s11 = ",\"finished_at\":"@ + s12;
    let s10 = enc_opt_int(t.started_at) + s11;
    let s9 = ",\"started_at\":"@ + s10;
    let s8 = enc_opt_str(t.note) + s9;
    let s7 = ",\"note\":"@ + s8;
    let s6 = enc_opt_str(t.review_log) + s7;
    let s5 = ",\"review_log\":"@ + s6;
    let s4 = enc_opt_str(t.worker_log) + s5;
    let s3 = ",\"worker_log\":"@ + s4;
    let s2 = esc(t.status.name_spec()) + seq!['"'] + s3;
    let s1 = esc(t.ticket_id) + seq!['"'] + (",\"status\":\""@ + s2);
    assert(full =~= "{\"ticket_id\":\""@ + s1);
    lemma_expect_round("{\"ticket_id\":\""@, s1);
    lemma_parse_string_round(t.ticket_id, ",\"status\":\""@ + s2);
    lemma_expect_round(",\"status\":\""@, s2);
    lemma_parse_string_round(t.status.name_spec(), s3);
    crate::state::lemma_status_name_inverts(t.status);
    lemma_expect_round(",\"worker_log\":"@, s4);
    lemma_parse_opt_string_round(t.worker_log, s5);
    lemma_expect_round(",\"review_log\":"@, s6);
    lemma_parse_opt_string_round(t.review_log, s7);
    lemma_expect_round(",\"note\":"@, s8);
    lemma_parse_opt_string_round(t.note, s9);
    lemma_expect_round(",\"started_at\":"@, s10);
    assert(s11[0] == ',');
    assert(!is_digit(','));
    lemma_parse_opt_int_round(t.started_at, s11);
    lemma_expect_round(",\"finished_at\":"@, s12);
    assert(s13[0] == '}');
    assert(!is_digit('}'));
    lemma_parse_opt_int_round(t.finished_at, s13);
    lemma_expect_round("}"@, rest);
    assert(parse_entry(full) == Some((t, rest)));
}

proof fn lemma_enc_entries_front(tks: Seq<TicketRunStateView>)
    requires
        tks.len() >= 1,
    ensures
        tks.len() == 1 ==> enc_entries(tks) == enc_item(tks[0]),
        tks.len() >= 2 ==> enc_entries(tks) == enc_item(tks[0]) + ","@ + enc_entries(
            tks.subrange(1, tks.len() as int),
        ),
    decreases tks.len(),
{
    if tks.len() >= 2 {
        let tail = tks.subrange(1, tks.len() as int);
        lemma_enc_entries_front(tks.drop_last());
        if tks.len() == 2 {
            assert(tks.drop_last() =~= seq![tks[0]]);
            assert(tail =~= seq![tks[1]]);
            assert(enc_entries(tks) == enc_entries(tks.drop_last()) + ","@ + enc_item(tks.last()));
            assert(enc_entries(seq![tks[0]]) == enc_item(tks[0]));
            assert(enc_entries(tail) == enc_item(tail[0]));
            assert(tail[0] == tks[1]);
            assert(enc_entries(tks) =~= enc_item(tks[0]) + ","@ + enc_entries(tail));
        } else {
            assert(tks.drop_last().len() >= 2);
            assert(tks.drop_last()[0] == tks[0]);
            assert(tks.drop_last().subrange(1, tks.drop_last().len() as int) =~= tail.drop_last());
            assert(enc_entries(tks) == enc_entries(tks.drop_last()) + ","@ + enc_item(tks.last()));
            assert(enc_entries(tks.drop_last()) == enc_item(tks[0]) + ","@ + enc_entries(
                tail.drop_last(),
            ));
            assert(tail.len() >= 2);
            assert(enc_entries(tail) == enc_entries(tail.drop_last()) + ","@ + enc_item(
                tail.last(),
            ));
            assert(tail.last() == tks.last());
            assert(enc_entries(tks) =~= enc_item(tks[0]) + ","@ + enc_entries(tail));
        }
    }
}

proof fn lemma_enc_entries_len(tks: Seq<TicketRunStateView>)
    ensures
        enc_entries(tks).len() >= tks.len(),
    decreases tks.len(),
{
    if tks.len() == 1 {
        assert(enc_entries(tks) == enc_item(tks[0]));
    } else if tks.len() >= 2 {
        lemma_enc_entries_len(tks.drop_last());
    }
}

#[verifier::spinoff_prover]
#[verifier::rlimit(100)]
proof fn lemma_parse_item_step(head: TicketRunStateView, after: Seq<char>)
    ensures
        (enc_item(head) + after).len() > 0,
        (enc_item(head) + after)[0] == '"',
        parse_string((enc_item(head) + after).subrange(1, (enc_item(head) + after).len() as int))
            == Some((head.ticket_id, ":"@ + (enc_entry(head) + after))),
        expect(":"@ + (enc_entry(head) + after), ":"@) == Some(enc_entry(head) + after),
        parse_entry(enc_entry(head) + after) == Some((head, after)),
{
    let full = enc_item(head) + after;
    assert(enc_item(head) == enc_str(head.ticket_id) + ":"@ + enc_entry(head));
    assert(full =~= seq!['"'] + (esc(head.ticket_id) + seq!['"'] + (":"@ + (enc_entry(head)
        + after))));
    assert(full[0] == '"');
    assert(full.subrange(1, full.len() as int) =~= esc(head.ticket_id) + seq!['"'] + (":"@ + (
    enc_entry(head) + after)));
    lemma_parse_string_round(head.ticket_id, ":"@ + (enc_entry(head) + after));
    lemma_expect_round(":"@, enc_entry(head) + after);
    lemma_parse_entry_round(head, after);
}

#[verifier::spinoff_prover]
#[verifier::rlimit(100)]
proof fn lemma_parse_items_round(tks: Seq<TicketRunStateView>, rest: Seq<char>, fuel: nat)
    requires
        fuel >= tks.len() + 1,
    ensures
        parse_items(enc_entries(tks) + seq!['}'] + rest, fuel) == Some((tks, rest)),
    decreases tks.len(),
{
    reveal_strlit(",");
    let full = enc_entries(tks) + seq!['}'] + rest;
    if tks.len() == 0 {
        assert(full =~= seq!['}'] + rest);
        assert(full[0] == '}');
        assert(full.subrange(1, full.len() as int) =~= rest);
        assert(tks =~= Seq::<TicketRunStateView>::empty());
    } else {
        lemma_enc_entries_front(tks);
        let head = tks[0];
        let tail = tks.subrange(1, tks.len() as int);
        let after_entry = if tks.len() == 1 {
            seq!['}'] + rest
        } else {
            ","@ + (enc_entries(tail) + seq!['}'] + rest)
        };
        assert(full =~= enc_item(head) + after_entry);
        lemma_parse_item_step(head, after_entry);
        assert(full[0] == '"');
        assert(full[0] != '}');
        assert(full.subrange(1, full.len() as int) == (enc_item(head) + after_entry).subrange(
            1,
            (enc_item(head) + after_entry).len() as int,
        ));
        if tks.len() == 1 {
            assert(after_entry[0] == '}');
            assert(after_entry[0] != ',');
            assert(after_entry.subrange(1, after_entry.len() as int) =~= rest);
            assert(seq![head] =~= tks);
        } else {
            assert(after_entry[0] == ',');
            let inner = after_entry.subrange(1, after_entry.len() as int);
            assert(inner =~= enc_entries(tail) + seq!['}'] + rest);
            lemma_parse_items_round(tail, rest, (fuel - 1) as nat);
            assert(seq![head] + tail =~= tks);
        }
    }
}

/// Decoding an encoded state gives the state back: `save` followed by
/// `load` round-trips every well-formed run state in all its semantic
/// fields, for every status value.
pub proof fn lemma_state_round_trip(v: WorkflowStateView)
    requires
        crate::state::wf_state(v),
    ensures
        decode_spec(enc_state(v)) == Some(v),
{
    reveal_strlit("{\"workflow_name\":");
    reveal_strlit("{\"workflow_name\":\"");
    reveal_strlit(",\"tickets\":{");
    reveal_strlit("}}");
    reveal_strlit("}");
    let full = enc_state(v);
    let s2 = enc_entries(v.tickets) + seq!['}'] + seq!['}'];
    let s1 = esc(v.workflow_name) + seq!['"'] + (",\"tickets\":{"@ + s2);
    assert(full =~= "{\"workflow_name\":\""@ + s1);
    lemma_expect_round("{\"workflow_name\":\""@, s1);
    lemma_parse_string_round(v.workflow_name, ",\"tickets\":{"@ + s2);
    lemma_expect_round(",\"tickets\":{"@, s2);
    lemma_enc_entries_len(v.tickets);
    assert(s2.len() >= v.tickets.len() + 2);
    lemma_parse_items_round(v.tickets, seq!['}'], s2.len() as nat);
    assert(seq!['}'] =~= "}"@ + Seq::<char>::empty());
    lemma_expect_round("}"@, Seq::<char>::empty());
    assert(parse_state(full) == Some(
        (WorkflowStateView { workflow_name: v.workflow_name, tickets: v.tickets }, Seq::<
            char,
        >::empty()),
    ));
    assert(WorkflowStateView { workflow_name: v.workflow_name, tickets: v.tickets } == v);
}

impl WorkflowState {
    /// Rebuild a run state from the text of its state file.
    pub fn load(text: &str) -> (r: Result<WorkflowState, WorkflowError>)
        ensures
            match r {
                Ok(s) => decode_spec(text@) == Some(s@) && crate::state::wf_state(s@),
                Err(e) => decode_spec(text@) is None && (e matches WorkflowError::MalformedState),
            },
    {
        decode_state(text)
    }

    /// The document to persist for this state.  The caller writes it to
    /// the temporary sibling path and renames it onto the target, so a
    /// reader only ever sees a complete document.
    pub fn save(&self) -> (r: String)
        ensures
            r@ == enc_state(self@),
    {
        encode_state(self)
    }
}

/// The temporary path a state file is first written to: the target
/// path with `.tmp` appended.
pub fn tmp_state_path(path: &str) -> (r: String)
    ensures
        r@ == path@ + ".tmp"@,
{
    let mut v = chars_of(path);
    let mut t = chars_of(".tmp");
    v.append(&mut t);
    string_of(&v)
}

} // verus!
