//! The response bodies: machines and errors rendered as JSON, framed by
//! the library itself so that exactly the specified bytes leave the
//! gateway.

use vstd::prelude::*;
use crate::error::{ApiError, ErrorKind};
use crate::machine::{Machine, MachineModel, pairs_view, spec_state_label, state_label};
use crate::order::machines_view;
use crate::text::{decimal_chars, spec_decimal, str_chars, string_from_chars};
use crate::token::{char_code, hex_char, hex_digit_char};

verus! {

/// One character as it appears inside a JSON string literal: quote and
/// backslash are escaped, control characters become `\u00XX`, everything
/// else stands for itself.
pub open spec fn esc_char(c: char) -> Seq<char> {
    if c == '"' {
        seq!['\\', '"']
    } else if c == '\\' {
        seq!['\\', '\\']
    } else if char_code(c) < 32 {
        seq!['\\', 'u', '0', '0', hex_char(char_code(c) / 16), hex_char(char_code(c) % 16)]
    } else {
        seq![c]
    }
}

/// A character sequence as it appears inside a JSON string literal.
pub open spec fn json_escape(s: Seq<char>) -> Seq<char>
    decreases s.len(),
{
    if s.len() == 0 {
        Seq::empty()
    } else {
        esc_char(s[0]) + json_escape(s.skip(1))
    }
}

/// Escaping distributes over concatenation.
pub proof fn lemma_json_escape_concat(a: Seq<char>, b: Seq<char>)
    ensures
        json_escape(a + b) == json_escape(a) + json_escape(b),
    decreases a.len(),
{
    if a.len() == 0 {
        assert(a + b =~= b);
        assert(json_escape(a) + json_escape(b) =~= json_escape(b));
    } else {
        assert((a + b)[0] == a[0]);
        assert((a + b).skip(1) =~= a.skip(1) + b);
        lemma_json_escape_concat(a.skip(1), b);
        assert(esc_char(a[0]) + (json_escape(a.skip(1)) + json_escape(b)) =~= (esc_char(a[0])
            + json_escape(a.skip(1))) + json_escape(b));
    }
}

/// A JSON string literal.
pub open spec fn json_string(s: Seq<char>) -> Seq<char> {
    seq!['"'] + json_escape(s) + seq!['"']
}

/// One `"key":"value"` member.
pub open spec fn json_pair(p: (Seq<char>, Seq<char>)) -> Seq<char> {
    json_string(p.0) + seq![':'] + json_string(p.1)
}

/// The members of an object of string pairs, comma separated.
pub open spec fn json_pairs_inner(ps: Seq<(Seq<char>, Seq<char>)>) -> Seq<char>
    decreases ps.len(),
{
    if ps.len() == 0 {
        Seq::empty()
    } else if ps.len() == 1 {
        json_pair(ps[0])
    } else {
        json_pair(ps[0]) + seq![','] + json_pairs_inner(ps.skip(1))
    }
}

/// An object of string pairs.
pub open spec fn json_pairs_object(ps: Seq<(Seq<char>, Seq<char>)>) -> Seq<char> {
    seq!['{'] + json_pairs_inner(ps) + seq!['}']
}

/// One machine as a JSON object.  The credentials member appears exactly
/// when the machine carries credential data to show.
pub open spec fn json_machine(m: MachineModel) -> Seq<char> {
    seq!['{'] + json_string("id"@) + seq![':'] + json_string(m.id) + seq![','] + json_string(
        "name"@,
    ) + seq![':'] + json_string(m.name) + seq![','] + json_string("type"@) + seq![':']
        + json_string(m.machine_type) + seq![','] + json_string("brand"@) + seq![':']
        + json_string(m.brand) + seq![','] + json_string("state"@) + seq![':'] + json_string(
        spec_state_label(m.state),
    ) + seq![','] + json_string("image"@) + seq![':'] + json_string(m.image) + seq![',']
        + json_string("memory"@) + seq![':'] + spec_decimal(m.memory as nat) + seq![',']
        + json_string("tags"@) + seq![':'] + json_pairs_object(m.tags) + seq![','] + json_string(
        "created"@,
    ) + seq![':'] + spec_decimal(m.created as nat) + (match m.credentials {
        Some(cs) => seq![','] + json_string("credentials"@) + seq![':'] + json_pairs_object(cs),
        None => Seq::empty(),
    }) + seq!['}']
}

/// The machine objects of the body, comma separated.
pub open spec fn json_machines_inner(ms: Seq<MachineModel>) -> Seq<char>
    decreases ms.len(),
{
    if ms.len() == 0 {
        Seq::empty()
    } else if ms.len() == 1 {
        json_machine(ms[0])
    } else {
        json_machine(ms[0]) + seq![','] + json_machines_inner(ms.skip(1))
    }
}

/// The whole response body: a JSON array of machines.
pub open spec fn json_machines(ms: Seq<MachineModel>) -> Seq<char> {
    seq!['['] + json_machines_inner(ms) + seq![']']
}

/// The stable, machine-readable label of each error kind.
pub open spec fn kind_label(k: ErrorKind) -> Seq<char> {
    match k {
        ErrorKind::InvalidFilter => "InvalidFilter"@,
        ErrorKind::InvalidToken => "InvalidToken"@,
        ErrorKind::UpstreamUnavailable => "UpstreamUnavailable"@,
    }
}

/// The human-readable message of an error: built from the kind and the
/// offending field name alone, so nothing internal can leak.
pub open spec fn error_message(k: ErrorKind, field: Seq<char>) -> Seq<char> {
    match k {
        ErrorKind::InvalidFilter => "invalid value for query parameter: "@ + field,
        ErrorKind::InvalidToken => "invalid or mismatched continuation token"@,
        ErrorKind::UpstreamUnavailable => "upstream VM service unavailable"@,
    }
}

/// The JSON error body: the kind and its message.
pub open spec fn json_error(k: ErrorKind, field: Seq<char>) -> Seq<char> {
    seq!['{'] + json_string("code"@) + seq![':'] + json_string(kind_label(k)) + seq![',']
        + json_string("message"@) + seq![':'] + json_string(error_message(k, field)) + seq!['}']
}

fn push_escaped_from(out: &mut Vec<char>, v: &Vec<char>, i: usize)
    requires
        i <= v.len(),
    ensures
        final(out)@ == old(out)@ + json_escape(v@.skip(i as int)),
    decreases v.len() - i,
{
    if i == v.len() {
        proof {
            assert(v@.skip(i as int) =~= Seq::<char>::empty());
            assert(out@ =~= out@ + json_escape(v@.skip(i as int)));
        }
    } else {
        let ghost pre = out@;
        let c = v[i];
        if c == '"' {
            out.push('\\');
            out.push('"');
        } else if c == '\\' {
            out.push('\\');
            out.push('\\');
        } else if (c as u32) < 32 {
            let n: u32 = c as u32;
            out.push('\\');
            out.push('u');
            out.push('0');
            out.push('0');
            out.push(hex_digit_char((n / 16) as u64));
            out.push(hex_digit_char((n % 16) as u64));
            proof {
                assert(((n / 16) as u64) as nat == char_code(c) / 16);
                assert(((n % 16) as u64) as nat == char_code(c) % 16);
            }
        } else {
            out.push(c);
        }
        proof {
            assert(out@ =~= pre + esc_char(c));
        }
        push_escaped_from(out, v, i + 1);
        proof {
            let tailseq = v@.skip(i as int);
            assert(tailseq[0] == v@[i as int]);
            assert(tailseq.skip(1) =~= v@.skip(i as int + 1));
            assert(out@ =~= pre + json_escape(tailseq));
        }
    }
}

fn push_json_string(out: &mut Vec<char>, s: &str)
    ensures
        final(out)@ == old(out)@ + json_string(s@),
{
    let ghost pre = out@;
    out.push('"');
    let v = str_chars(s);
    proof {
        assert(v@.skip(0) =~= s@);
    }
    push_escaped_from(out, &v, 0);
    out.push('"');
    proof {
        assert(out@ =~= pre + json_string(s@));
    }
}

fn push_decimal(out: &mut Vec<char>, n: u64)
    ensures
        final(out)@ == old(out)@ + spec_decimal(n as nat),
{
    let mut v = decimal_chars(n);
    out.append(&mut v);
}

fn push_json_pairs_from(out: &mut Vec<char>, ps: &Vec<(String, String)>, i: usize)
    requires
        i <= ps.len(),
    ensures
        final(out)@ == old(out)@ + json_pairs_inner(pairs_view(ps@).skip(i as int)),
    decreases ps.len() - i,
{
    let ghost tailseq = pairs_view(ps@).skip(i as int);
    if i == ps.len() {
        proof {
            assert(tailseq =~= Seq::<(Seq<char>, Seq<char>)>::empty());
            assert(out@ =~= out@ + json_pairs_inner(tailseq));
        }
    } else {
        let ghost pre = out@;
        let (k, v) = &ps[i];
        push_json_string(out, k.as_str());
        out.push(':');
        push_json_string(out, v.as_str());
        proof {
            assert(tailseq[0] == (ps@[i as int].0@, ps@[i as int].1@));
            assert(out@ =~= pre + json_pair(tailseq[0]));
        }
        if i + 1 < ps.len() {
            out.push(',');
            push_json_pairs_from(out, ps, i + 1);
            proof {
                assert(tailseq.skip(1) =~= pairs_view(ps@).skip(i as int + 1));
                assert(tailseq.len() > 1);
                assert(out@ =~= pre + json_pairs_inner(tailseq));
            }
        } else {
            proof {
                assert(tailseq.len() == 1);
                assert(out@ =~= pre + json_pairs_inner(tailseq));
            }
        }
    }
}

fn push_json_pairs_object(out: &mut Vec<char>, ps: &Vec<(String, String)>)
    ensures
        final(out)@ == old(out)@ + json_pairs_object(pairs_view(ps@)),
{
    let ghost pre = out@;
    out.push('{');
    proof {
        assert(pairs_view(ps@).skip(0) =~= pairs_view(ps@));
    }
    push_json_pairs_from(out, ps, 0);
    out.push('}');
    proof {
        assert(out@ =~= pre + json_pairs_object(pairs_view(ps@)));
    }
}

#[verifier::rlimit(60)]
#[verifier::spinoff_prover]
fn push_machine(out: &mut Vec<char>, m: &Machine)
    ensures
        final(out)@ == old(out)@ + json_machine(m@),
{
    let ghost pre = out@;
    out.push('{');
    push_json_string(out, "id");
    out.push(':');
    push_json_string(out, m.id.as_str());
    let ghost acc = seq!['{'] + json_string("id"@) + seq![':'] + json_string(m@.id);
    proof {
        assert(out@ =~= pre + acc);
    }
    out.push(',');
    push_json_string(out, "name");
    out.push(':');
    push_json_string(out, m.name.as_str());
    let ghost acc = acc + seq![','] + json_string("name"@) + seq![':'] + json_string(m@.name);
    proof {
        assert(out@ =~= pre + acc);
    }
    out.push(',');
    push_json_string(out, "type");
    out.push(':');
    push_json_string(out, m.machine_type.as_str());
    let ghost acc = acc + seq![','] + json_string("type"@) + seq![':'] + json_string(
        m@.machine_type,
    );
    proof {
        assert(out@ =~= pre + acc);
    }
    out.push(',');
    push_json_string(out, "brand");
    out.push(':');
    push_json_string(out, m.brand.as_str());
    let ghost acc = acc + seq![','] + json_string("brand"@) + seq![':'] + json_string(m@.brand);
    proof {
        assert(out@ =~= pre + acc);
    }
    out.push(',');
    push_json_string(out, "state");
    out.push(':');
    push_json_string(out, state_label(&m.state));
    let ghost acc = acc + seq![','] + json_string("state"@) + seq![':'] + json_string(
        spec_state_label(m@.state),
    );
    proof {
        assert(out@ =~= pre + acc);
    }
    out.push(',');
    push_json_string(out, "image");
    out.push(':');
    push_json_string(out, m.image.as_str());
    let ghost acc = acc + seq![','] + json_string("image"@) + seq![':'] + json_string(m@.image);
    proof {
        assert(out@ =~= pre + acc);
    }
    out.push(',');
    push_json_string(out, "memory");
    out.push(':');
    push_decimal(out, m.memory);
    let ghost acc = acc + seq![','] + json_string("memory"@) + seq![':'] + spec_decimal(
        m@.memory as nat,
    );
    proof {
        assert(out@ =~= pre + acc);
    }
    out.push(',');
    push_json_string(out, "tags");
    out.push(':');
    push_json_pairs_object(out, &m.tags);
    let ghost acc = acc + seq![','] + json_string("tags"@) + seq![':'] + json_pairs_object(m@.tags);
    proof {
        assert(out@ =~= pre + acc);
    }
    out.push(',');
    push_json_string(out, "created");
    out.push(':');
    push_decimal(out, m.created);
    let ghost acc = acc + seq![','] + json_string("created"@) + seq![':'] + spec_decimal(
        m@.created as nat,
    );
    proof {
        assert(out@ =~= pre + acc);
    }
    match &m.credentials {
        Some(cs) => {
            out.push(',');
            push_json_string(out, "credentials");
            out.push(':');
            push_json_pairs_object(out, cs);
        },
        None => {},
    }
    let ghost acc = acc + (match m@.credentials {
        Some(cs) => seq![','] + json_string("credentials"@) + seq![':'] + json_pairs_object(cs),
        None => Seq::<char>::empty(),
    });
    proof {
        assert(out@ =~= pre + acc);
    }
    out.push('}');
    proof {
        assert(out@ =~= pre + (acc + seq!['}']));
        assert(acc + seq!['}'] == json_machine(m@));
    }
}

#[verifier::rlimit(50)]
fn push_machines_from(out: &mut Vec<char>, ms: &Vec<Machine>, i: usize)
    requires
        i <= ms.len(),
    ensures
        final(out)@ == old(out)@ + json_machines_inner(machines_view(ms@).skip(i as int)),
    decreases ms.len() - i,
{
    let ghost tailseq = machines_view(ms@).skip(i as int);
    if i == ms.len() {
        proof {
            assert(tailseq =~= Seq::<MachineModel>::empty());
            assert(out@ =~= out@ + json_machines_inner(tailseq));
        }
    } else {
        let ghost pre = out@;
        push_machine(out, &ms[i]);
        proof {
            assert(tailseq[0] == ms@[i as int]@);
        }
        if i + 1 < ms.len() {
            out.push(',');
            push_machines_from(out, ms, i + 1);
            proof {
                assert(tailseq.skip(1) =~= machines_view(ms@).skip(i as int + 1));
                assert(tailseq.len() > 1);
                assert(out@ =~= pre + json_machines_inner(tailseq));
            }
        } else {
            proof {
                assert(tailseq.len() == 1);
                assert(out@ =~= pre + json_machines_inner(tailseq));
            }
        }
    }
}

/// Renders the response body for a page of machines.
pub fn machines_body(ms: &Vec<Machine>) -> (r: String)
    ensures
        r@ == json_machines(machines_view(ms@)),
{
    let mut out: Vec<char> = Vec::new();
    out.push('[');
    proof {
        assert(machines_view(ms@).skip(0) =~= machines_view(ms@));
    }
    push_machines_from(&mut out, ms, 0);
    out.push(']');
    proof {
        assert(out@ =~= json_machines(machines_view(ms@)));
    }
    string_from_chars(&out)
}

/// Renders the JSON body of an error response.
pub fn error_body(e: &ApiError) -> (r: String)
    ensures
        r@ == json_error(e.kind, e.field@),
{
    let mut out: Vec<char> = Vec::new();
    out.push('{');
    push_json_string(&mut out, "code");
    out.push(':');
    match e.kind {
        ErrorKind::InvalidFilter => push_json_string(&mut out, "InvalidFilter"),
        ErrorKind::InvalidToken => push_json_string(&mut out, "InvalidToken"),
        ErrorKind::UpstreamUnavailable => push_json_string(&mut out, "UpstreamUnavailable"),
    }
    out.push(',');
    push_json_string(&mut out, "message");
    out.push(':');
    match e.kind {
        ErrorKind::InvalidFilter => {
            let ghost pre = out@;
            out.push('"');
            let lit = "invalid value for query parameter: ";
            let lv = str_chars(lit);
            proof {
                assert(lv@.skip(0) =~= lit@);
            }
            push_escaped_from(&mut out, &lv, 0);
            let fv = str_chars(e.field.as_str());
            proof {
                assert(fv@.skip(0) =~= e.field@);
            }
            push_escaped_from(&mut out, &fv, 0);
            out.push('"');
            proof {
                lemma_json_escape_concat(lit@, e.field@);
                assert(out@ =~= pre + json_string(error_message(e.kind, e.field@)));
            }
        },
        ErrorKind::InvalidToken => push_json_string(
            &mut out,
            "invalid or mismatched continuation token",
        ),
        ErrorKind::UpstreamUnavailable => push_json_string(
            &mut out,
            "upstream VM service unavailable",
        ),
    }
    out.push('}');
    proof {
        assert(out@ =~= json_error(e.kind, e.field@));
    }
    string_from_chars(&out)
}

} // verus!
