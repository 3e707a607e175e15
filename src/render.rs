//! Canonical text renderings of attribute values, used to derive a stable
//! identity for anonymous contexts.

use vstd::prelude::*;

use crate::rule::AttributeValue;

verus! {

/// The decimal digit `d` as text.
pub open spec fn digit_text(d: int) -> Seq<char> {
    if d == 0 {
        seq!['0']
    } else if d == 1 {
        seq!['1']
    } else if d == 2 {
        seq!['2']
    } else if d == 3 {
        seq!['3']
    } else if d == 4 {
        seq!['4']
    } else if d == 5 {
        seq!['5']
    } else if d == 6 {
        seq!['6']
    } else if d == 7 {
        seq!['7']
    } else if d == 8 {
        seq!['8']
    } else {
        seq!['9']
    }
}

/// The decimal text of a natural number, without leading zeros.
pub open spec fn nat_text(n: nat) -> Seq<char>
    decreases n,
{
    if n < 10 {
        digit_text(n as int)
    } else {
        nat_text(n / 10) + digit_text((n % 10) as int)
    }
}

/// The decimal text of an integer, with a leading `-` when negative.
pub open spec fn int_text(n: int) -> Seq<char> {
    if n < 0 {
        seq!['-'] + nat_text((-n) as nat)
    } else {
        nat_text(n as nat)
    }
}

/// The strings of a list, each in double quotes, separated by `, `.
pub open spec fn quoted_list(l: Seq<String>) -> Seq<char>
    decreases l.len(),
{
    if l.len() == 0 {
        Seq::empty()
    } else if l.len() == 1 {
        seq!['"'] + l[0]@ + seq!['"']
    } else {
        quoted_list(l.drop_last()) + seq![',', ' ', '"'] + l.last()@ + seq!['"']
    }
}

/// The rendering of an attribute value: its variant name and its content.
pub open spec fn render_value(v: AttributeValue) -> Seq<char> {
    match v {
        AttributeValue::String(s) => "String(\""@ + s@ + "\")"@,
        AttributeValue::Number(n) => "Number("@ + int_text(n.0 as int) + "e-6)"@,
        AttributeValue::Boolean(b) => if b {
            "Boolean(true)"@
        } else {
            "Boolean(false)"@
        },
        AttributeValue::StringList(l) => "StringList(["@ + quoted_list(l@) + "])"@,
        AttributeValue::SegmentRef(id) => "SegmentRef("@ + nat_text(id.0 as nat) + ")"@,
    }
}

fn digit_str(d: u128) -> (r: &'static str)
    requires
        d < 10,
    ensures
        r@ == digit_text(d as int),
{
    proof {
        reveal_strlit("0");
        reveal_strlit("1");
        reveal_strlit("2");
        reveal_strlit("3");
        reveal_strlit("4");
        reveal_strlit("5");
        reveal_strlit("6");
        reveal_strlit("7");
        reveal_strlit("8");
        reveal_strlit("9");
    }
    if d == 0 {
        "0"
    } else if d == 1 {
        "1"
    } else if d == 2 {
        "2"
    } else if d == 3 {
        "3"
    } else if d == 4 {
        "4"
    } else if d == 5 {
        "5"
    } else if d == 6 {
        "6"
    } else if d == 7 {
        "7"
    } else if d == 8 {
        "8"
    } else {
        "9"
    }
}

/// Appends the decimal text of `n`.
pub fn append_nat(out: &mut String, n: u128)
    ensures
        final(out)@ == old(out)@ + nat_text(n as nat),
    decreases n,
{
    if n >= 10 {
        append_nat(out, n / 10);
        out.append(digit_str(n % 10));
        assert(final(out)@ =~= old(out)@ + nat_text(n as nat));
    } else {
        out.append(digit_str(n));
    }
}

/// Appends the decimal text of `n`, signed.
pub fn append_int(out: &mut String, n: i64)
    ensures
        final(out)@ == old(out)@ + int_text(n as int),
{
    if n < 0 {
        proof {
            reveal_strlit("-");
        }
        out.append("-");
        let m: i128 = -(n as i128);
        append_nat(out, m as u128);
        assert(final(out)@ =~= old(out)@ + int_text(n as int));
    } else {
        append_nat(out, n as u128);
    }
}

fn append_quoted_list(out: &mut String, l: &Vec<String>)
    ensures
        final(out)@ == old(out)@ + quoted_list(l@),
{
    proof {
        reveal_strlit("\"");
        reveal_strlit(", \"");
    }
    let ghost start = out@;
    let mut i: usize = 0;
    while i < l.len()
        invariant
            i <= l@.len(),
            out@ == start + quoted_list(l@.subrange(0, i as int)),
        decreases l@.len() - i,
    {
        let ghost prev = out@;
        if i == 0 {
            out.append("\"");
        } else {
            out.append(", \"");
        }
        out.append(l[i].as_str());
        out.append("\"");
        proof {
            let s = l@.subrange(0, i + 1);
            assert(s.drop_last() =~= l@.subrange(0, i as int));
            assert(s.last() == l@[i as int]);
            reveal_strlit("\"");
            reveal_strlit(", \"");
            assert("\""@ =~= seq!['"']);
            assert(", \""@ =~= seq![',', ' ', '"']);
            if i == 0 {
                assert(s.len() == 1);
                assert(s[0] == l@[0]);
                assert(quoted_list(s) == seq!['"'] + l@[0]@ + seq!['"']);
                assert(quoted_list(l@.subrange(0, 0)) =~= Seq::<char>::empty());
            } else {
                assert(quoted_list(s) == quoted_list(s.drop_last()) + seq![',', ' ', '"'] + l@[i as int]@
                    + seq!['"']);
            }
            assert(out@ =~= start + quoted_list(s));
        }
        i = i + 1;
    }
    assert(l@.subrange(0, i as int) =~= l@);
}

/// Appends the rendering of `v`.
pub fn append_rendered(out: &mut String, v: &AttributeValue)
    ensures
        final(out)@ == old(out)@ + render_value(*v),
{
    match v {
        AttributeValue::String(s) => {
            out.append("String(\"");
            out.append(s.as_str());
            out.append("\")");
            assert(final(out)@ =~= old(out)@ + render_value(*v));
        },
        AttributeValue::Number(n) => {
            out.append("Number(");
            append_int(out, n.0);
            out.append("e-6)");
            assert(final(out)@ =~= old(out)@ + render_value(*v));
        },
        AttributeValue::Boolean(b) => {
            if *b {
                out.append("Boolean(true)");
            } else {
                out.append("Boolean(false)");
            }
        },
        AttributeValue::StringList(l) => {
            out.append("StringList([");
            append_quoted_list(out, l);
            out.append("])");
            assert(final(out)@ =~= old(out)@ + render_value(*v));
        },
        AttributeValue::SegmentRef(id) => {
            out.append("SegmentRef(");
            append_nat(out, id.0);
            out.append(")");
            assert(final(out)@ =~= old(out)@ + render_value(*v));
        },
    }
}

} // verus!
