//! The control endpoint's wire format: the JSON array of descriptor objects
//! that a `GET` on the control endpoint returns. Each descriptor serializes
//! as an object with `name` and `prefix` string fields; string contents are
//! escaped per JSON (quote, backslash, and control bytes).
//!
//! Serialization is total: every descriptor list has a well-defined encoding,
//! so the listing can never fail.

use crate::plugin::{Plugin, PluginView};
use vstd::prelude::*;

verus! {

/// The lower-case hex digit for `n < 16`.
pub open spec fn hex_digit(n: u8) -> u8 {
    if n < 10 {
        (48 + n) as u8  // '0'..'9'
    } else {
        (87 + n) as u8  // 'a'..'f'
    }
}

/// The JSON escape of one string byte: `\"` for a quote, `\\` for a
/// backslash, `\u00XX` for a control byte, the byte itself otherwise.
pub open spec fn json_escape_byte(b: u8) -> Seq<u8> {
    if b == 34u8 {
        seq![92u8, 34u8]
    } else if b == 92u8 {
        seq![92u8, 92u8]
    } else if b < 32u8 {
        seq![92u8, 117u8, 48u8, 48u8, hex_digit(b / 16), hex_digit(b % 16)]
    } else {
        seq![b]
    }
}

/// The JSON escape of a whole string body.
pub open spec fn json_escape(s: Seq<u8>) -> Seq<u8>
    decreases s.len(),
{
    if s.len() == 0 {
        Seq::empty()
    } else {
        json_escape(s.drop_last()) + json_escape_byte(s.last())
    }
}

/// The bytes of `{"name":"`.
pub open spec fn name_key() -> Seq<u8> {
    seq![123u8, 34u8, 110u8, 97u8, 109u8, 101u8, 34u8, 58u8, 34u8]
}

/// The bytes of `","prefix":"`.
pub open spec fn prefix_key() -> Seq<u8> {
    seq![34u8, 44u8, 34u8, 112u8, 114u8, 101u8, 102u8, 105u8, 120u8, 34u8, 58u8, 34u8]
}

/// The bytes of `"}`.
pub open spec fn object_end() -> Seq<u8> {
    seq![34u8, 125u8]
}

/// The JSON object encoding one descriptor.
pub open spec fn json_of_plugin(p: PluginView) -> Seq<u8> {
    name_key() + json_escape(p.name) + prefix_key() + json_escape(p.prefix) + object_end()
}

/// The comma-joined object list inside the array brackets.
pub open spec fn json_items(l: Seq<PluginView>) -> Seq<u8>
    decreases l.len(),
{
    if l.len() == 0 {
        Seq::empty()
    } else if l.len() == 1 {
        json_of_plugin(l[0])
    } else {
        json_items(l.drop_last()) + seq![44u8] + json_of_plugin(l.last())
    }
}

/// The JSON array encoding a descriptor list.
pub open spec fn json_of_list(l: Seq<PluginView>) -> Seq<u8> {
    seq![91u8] + json_items(l) + seq![93u8]
}

/// Appends one byte.
fn push_byte(out: &mut Vec<u8>, b: u8)
    ensures
        final(out)@ == old(out)@ + seq![b],
{
    out.push(b);
    proof {
        assert(out@ =~= old(out)@ + seq![b]);
    }
}

/// Appends the escape of one byte.
fn push_escaped_byte(out: &mut Vec<u8>, b: u8)
    ensures
        final(out)@ == old(out)@ + json_escape_byte(b),
{
    let ghost pre = out@;
    if b == 34u8 {
        out.push(92u8);
        out.push(34u8);
    } else if b == 92u8 {
        out.push(92u8);
        out.push(92u8);
    } else if b < 32u8 {
        out.push(92u8);
        out.push(117u8);
        out.push(48u8);
        out.push(48u8);
        let hi = b / 16;
        let lo = b % 16;
        out.push(if hi < 10 { hi + 48 } else { hi + 87 });
        out.push(if lo < 10 { lo + 48 } else { lo + 87 });
    } else {
        out.push(b);
    }
    proof {
        assert(out@ =~= pre + json_escape_byte(b));
    }
}

/// Appends the escaped body of a string.
fn append_escaped(out: &mut Vec<u8>, s: &Vec<u8>)
    ensures
        final(out)@ == old(out)@ + json_escape(s@),
{
    let ghost pre = out@;
    let mut i: usize = 0;
    while i < s.len()
        invariant
            i <= s.len(),
            out@ == pre + json_escape(s@.take(i as int)),
        decreases s.len() - i,
    {
        proof {
            assert(s@.take(i + 1 as int).drop_last() =~= s@.take(i as int));
            assert(s@.take(i + 1 as int).last() == s@[i as int]);
        }
        push_escaped_byte(out, s[i]);
        i += 1;
    }
    proof {
        assert(s@.take(s@.len() as int) =~= s@);
    }
}

/// Appends the JSON object of one descriptor.
fn append_plugin(out: &mut Vec<u8>, p: &Plugin)
    ensures
        final(out)@ == old(out)@ + json_of_plugin(p@),
{
    let ghost pre = out@;
    push_byte(out, 123u8);
    push_byte(out, 34u8);
    push_byte(out, 110u8);
    push_byte(out, 97u8);
    push_byte(out, 109u8);
    push_byte(out, 101u8);
    push_byte(out, 34u8);
    push_byte(out, 58u8);
    push_byte(out, 34u8);
    proof {
        assert(out@ =~= pre + name_key());
    }
    append_escaped(out, &p.name);
    let ghost mid = out@;
    push_byte(out, 34u8);
    push_byte(out, 44u8);
    push_byte(out, 34u8);
    push_byte(out, 112u8);
    push_byte(out, 114u8);
    push_byte(out, 101u8);
    push_byte(out, 102u8);
    push_byte(out, 105u8);
    push_byte(out, 120u8);
    push_byte(out, 34u8);
    push_byte(out, 58u8);
    push_byte(out, 34u8);
    proof {
        assert(out@ =~= mid + prefix_key());
    }
    append_escaped(out, &p.prefix);
    push_byte(out, 34u8);
    push_byte(out, 125u8);
    proof {
        assert(out@ =~= pre + json_of_plugin(p@));
    }
}

/// Serializes a descriptor list as the control endpoint's JSON array.
pub fn list_json(plugins: &Vec<Plugin>) -> (r: Vec<u8>)
    ensures
        r@ == json_of_list(plugins@.map_values(|p: Plugin| p@)),
{
    let ghost l = plugins@.map_values(|p: Plugin| p@);
    let mut out: Vec<u8> = Vec::new();
    push_byte(&mut out, 91u8);
    proof {
        assert(out@ =~= seq![91u8] + json_items(l.take(0)));
    }
    let mut i: usize = 0;
    while i < plugins.len()
        invariant
            i <= plugins.len(),
            l == plugins@.map_values(|p: Plugin| p@),
            l.len() == plugins@.len(),
            out@ == seq![91u8] + json_items(l.take(i as int)),
        decreases plugins.len() - i,
    {
        proof {
            assert(l.take(i + 1 as int).drop_last() =~= l.take(i as int));
            assert(l.take(i + 1 as int).last() == l[i as int]);
        }
        if i > 0 {
            push_byte(&mut out, 44u8);
        }
        append_plugin(&mut out, &plugins[i]);
        proof {
            if i == 0 {
                assert(l.take(1int).len() == 1);
                assert(out@ =~= seq![91u8] + json_items(l.take(1int)));
            } else {
                assert(out@ =~= seq![91u8] + json_items(l.take(i + 1 as int)));
            }
        }
        i += 1;
    }
    push_byte(&mut out, 93u8);
    proof {
        assert(l.take(l.len() as int) =~= l);
        assert(out@ =~= json_of_list(l));
    }
    out
}

} // verus!
