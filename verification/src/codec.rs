use vstd::prelude::*;

use crate::msgs::PingMsg;

verus! {

// The payload of a `Receive` execute message is text in the mock's message
// envelope: the single-field ping record, written as
//
//     {"payload":"<escaped characters>"}
//
// where `"` and `\` inside the payload are escaped with a backslash and
// every other character stands for itself.

/// How one payload character is written inside the envelope.
pub open spec fn escape_char(c: char) -> Seq<char> {
    if c == '"' || c == '\\' {
        seq!['\\', c]
    } else {
        seq![c]
    }
}

/// How a whole payload is written inside the envelope.
pub open spec fn escape(s: Seq<char>) -> Seq<char>
    decreases s.len(),
{
    if s.len() == 0 {
        Seq::empty()
    } else {
        escape_char(s[0]) + escape(s.subrange(1, s.len() as int))
    }
}

/// The characters that open the ping envelope, up to the opening quote of
/// the payload field.
pub open spec fn ping_prefix() -> Seq<char> {
    seq!['{', '"', 'p', 'a', 'y', 'l', 'o', 'a', 'd', '"', ':', '"']
}

/// The characters that close the ping envelope.
pub open spec fn ping_suffix() -> Seq<char> {
    seq!['"', '}']
}

/// The full envelope text carrying payload `p`.
pub open spec fn ping_encoding(p: Seq<char>) -> Seq<char> {
    ping_prefix() + escape(p) + ping_suffix()
}

/// Reads an escaped payload followed by the closing `"` and `}` and nothing
/// else; `None` on any malformed text.
pub open spec fn parse_quoted(s: Seq<char>) -> Option<Seq<char>>
    decreases s.len(),
{
    if s.len() == 0 {
        None
    } else if s[0] == '"' {
        if s.len() == 2 && s[1] == '}' {
            Some(Seq::empty())
        } else {
            None
        }
    } else if s[0] == '\\' {
        if s.len() >= 2 && (s[1] == '"' || s[1] == '\\') {
            match parse_quoted(s.subrange(2, s.len() as int)) {
                Some(r) => Some(seq![s[1]] + r),
                None => None,
            }
        } else {
            None
        }
    } else {
        match parse_quoted(s.subrange(1, s.len() as int)) {
            Some(r) => Some(seq![s[0]] + r),
            None => None,
        }
    }
}

/// The payload carried by envelope text `t`, or `None` when `t` is not a
/// well-formed ping envelope.
pub open spec fn decode_ping_spec(t: Seq<char>) -> Option<Seq<char>> {
    if t.len() >= 12 && t.subrange(0, 12) == ping_prefix() {
        parse_quoted(t.subrange(12, t.len() as int))
    } else {
        None
    }
}

/// Prefixing a decoded payload, when there is one.
pub open spec fn opt_prepend(pre: Seq<char>, o: Option<Seq<char>>) -> Option<Seq<char>> {
    match o {
        Some(r) => Some(pre + r),
        None => None,
    }
}

proof fn lemma_prepend_empty(x: Option<Seq<char>>)
    ensures
        opt_prepend(Seq::empty(), x) == x,
{
    match x {
        Some(r) => {
            assert(Seq::empty() + r =~= r);
        },
        None => {},
    }
}

proof fn lemma_prepend_shift(pre: Seq<char>, c: char, x: Option<Seq<char>>)
    ensures
        opt_prepend(
            pre,
            match x {
                Some(r) => Some(seq![c] + r),
                None => None::<Seq<char>>,
            },
        ) == opt_prepend(pre.push(c), x),
{
    match x {
        Some(r) => {
            assert(pre + (seq![c] + r) =~= pre.push(c) + r);
        },
        None => {},
    }
}

/// Escaping distributes over concatenation.
proof fn lemma_escape_append(a: Seq<char>, b: Seq<char>)
    ensures
        escape(a + b) == escape(a) + escape(b),
    decreases a.len(),
{
    if a.len() == 0 {
        assert(a + b =~= b);
        assert(escape(a) =~= Seq::<char>::empty());
        assert(Seq::<char>::empty() + escape(b) =~= escape(b));
    } else {
        let at = a.subrange(1, a.len() as int);
        assert((a + b)[0] == a[0]);
        assert((a + b).subrange(1, (a + b).len() as int) =~= at + b);
        lemma_escape_append(at, b);
        assert(escape_char(a[0]) + (escape(at) + escape(b)) =~= (escape_char(a[0]) + escape(at))
            + escape(b));
    }
}

/// The escaped payload followed by the envelope's closing characters reads
/// back as exactly that payload.
proof fn lemma_parse_escaped(p: Seq<char>)
    ensures
        parse_quoted(escape(p) + ping_suffix()) == Some(p),
    decreases p.len(),
{
    let s = escape(p) + ping_suffix();
    if p.len() == 0 {
        assert(escape(p) =~= Seq::<char>::empty());
        assert(s =~= ping_suffix());
        assert(s[0] == '"' && s.len() == 2 && s[1] == '}');
        assert(parse_quoted(s) == Some(Seq::<char>::empty()));
        assert(p =~= Seq::<char>::empty());
    } else {
        let c = p[0];
        let pt = p.subrange(1, p.len() as int);
        lemma_parse_escaped(pt);
        if c == '"' || c == '\\' {
            assert(s[0] == '\\' && s[1] == c);
            assert(s.len() >= 2);
            assert(s.subrange(2, s.len() as int) =~= escape(pt) + ping_suffix());
            assert(parse_quoted(s) == Some(seq![c] + pt));
        } else {
            assert(s[0] == c);
            assert(s.subrange(1, s.len() as int) =~= escape(pt) + ping_suffix());
            assert(parse_quoted(s) == Some(seq![c] + pt));
        }
        assert(seq![c] + pt =~= p);
    }
}

/// Decoding undoes encoding: every payload comes back from its own envelope.
pub proof fn lemma_decode_ping_encoding(p: Seq<char>)
    ensures
        decode_ping_spec(ping_encoding(p)) == Some(p),
{
    let t = ping_encoding(p);
    assert(t.len() >= 12);
    assert(t.subrange(0, 12) =~= ping_prefix());
    assert(t.subrange(12, t.len() as int) =~= escape(p) + ping_suffix());
    lemma_parse_escaped(p);
}

/// Relies on `String`'s `FromIterator<char>` implementation: collecting
/// characters yields the string of exactly those characters, in order.
#[verifier::external_body]
pub(crate) fn chars_to_string(v: Vec<char>) -> (r: String)
    ensures
        r@ == v@,
{
    v.into_iter().collect()
}

/// The character at position `i` of the envelope's opening text.
fn prefix_char(i: usize) -> (r: char)
    requires
        i < 12,
    ensures
        r == ping_prefix()[i as int],
{
    if i == 0 {
        '{'
    } else if i == 1 || i == 9 {
        '"'
    } else if i == 2 {
        'p'
    } else if i == 3 || i == 7 {
        'a'
    } else if i == 4 {
        'y'
    } else if i == 5 {
        'l'
    } else if i == 6 {
        'o'
    } else if i == 8 {
        'd'
    } else if i == 10 {
        ':'
    } else {
        '"'
    }
}

/// Writes the ping record `p` as envelope text.
pub fn encode_ping(p: &PingMsg) -> (r: String)
    ensures
        r@ == ping_encoding(p.payload@),
{
    let payload = p.payload.as_str();
    let mut out: Vec<char> = Vec::new();
    let mut k: usize = 0;
    while k < 12
        invariant
            0 <= k <= 12,
            out@.len() == k,
            forall|j: int| 0 <= j < k ==> out@[j] == ping_prefix()[j],
        decreases 12 - k,
    {
        out.push(prefix_char(k));
        k = k + 1;
    }
    proof {
        assert(out@ =~= ping_prefix());
    }
    let n = payload.unicode_len();
    let mut i: usize = 0;
    while i < n
        invariant
            0 <= i <= n,
            n == payload@.len(),
            out@ == ping_prefix() + escape(payload@.subrange(0, i as int)),
        decreases n - i,
    {
        let c = payload.get_char(i);
        let ghost done = payload@.subrange(0, i as int);
        if c == '"' || c == '\\' {
            out.push('\\');
            out.push(c);
        } else {
            out.push(c);
        }
        proof {
            lemma_escape_append(done, seq![c]);
            assert(payload@.subrange(0, i as int + 1) =~= done + seq![c]);
            assert(seq![c].subrange(1, 1) =~= Seq::<char>::empty());
            assert(escape(Seq::<char>::empty()) =~= Seq::<char>::empty());
            assert(escape(seq![c]) =~= escape_char(c));
            assert(out@ =~= ping_prefix() + escape(payload@.subrange(0, i as int + 1)));
        }
        i = i + 1;
    }
    out.push('"');
    out.push('}');
    proof {
        assert(payload@.subrange(0, n as int) =~= payload@);
        assert(out@ =~= ping_encoding(payload@));
    }
    chars_to_string(out)
}

/// Reads the ping record out of envelope text `t`; `None` on malformed text.
pub fn decode_ping(t: &str) -> (r: Option<PingMsg>)
    ensures
        match decode_ping_spec(t@) {
            Some(p) => r matches Some(pm) && pm.payload@ == p,
            None => r is None,
        },
{
    let n = t.unicode_len();
    if n < 12 {
        return None;
    }
    let mut k: usize = 0;
    while k < 12
        invariant
            0 <= k <= 12,
            12 <= n == t@.len(),
            forall|j: int| 0 <= j < k ==> t@[j] == ping_prefix()[j],
        decreases 12 - k,
    {
        let c = t.get_char(k);
        if c != prefix_char(k) {
            proof {
                assert(t@.subrange(0, 12)[k as int] != ping_prefix()[k as int]);
            }
            return None;
        }
        k = k + 1;
    }
    proof {
        assert(t@.subrange(0, 12) =~= ping_prefix());
        lemma_prepend_empty(parse_quoted(t@.subrange(12, n as int)));
    }
    let mut out: Vec<char> = Vec::new();
    let mut i: usize = 12;
    loop
        invariant
            12 <= i <= n,
            n == t@.len(),
            t@.subrange(0, 12) == ping_prefix(),
            decode_ping_spec(t@) == parse_quoted(t@.subrange(12, n as int)),
            parse_quoted(t@.subrange(12, n as int)) == opt_prepend(
                out@,
                parse_quoted(t@.subrange(i as int, n as int)),
            ),
        decreases n - i,
    {
        let ghost s_i = t@.subrange(i as int, n as int);
        if i == n {
            proof {
                assert(s_i.len() == 0);
            }
            return None;
        }
        let c = t.get_char(i);
        proof {
            assert(s_i[0] == t@[i as int]);
        }
        if c == '"' {
            if n - i == 2 {
                let d = t.get_char(i + 1);
                proof {
                    assert(s_i[1] == t@[i as int + 1]);
                }
                if d == '}' {
                    proof {
                        assert(parse_quoted(s_i) == Some(Seq::<char>::empty()));
                        assert(out@ + Seq::<char>::empty() =~= out@);
                    }
                    return Some(PingMsg { payload: chars_to_string(out) });
                } else {
                    return None;
                }
            } else {
                proof {
                    assert(s_i.len() != 2);
                }
                return None;
            }
        } else if c == '\\' {
            if i + 1 < n {
                let d = t.get_char(i + 1);
                proof {
                    assert(s_i[1] == t@[i as int + 1]);
                }
                if d == '"' || d == '\\' {
                    proof {
                        assert(s_i.subrange(2, s_i.len() as int) =~= t@.subrange(
                            i as int + 2,
                            n as int,
                        ));
                        lemma_prepend_shift(
                            out@,
                            d,
                            parse_quoted(t@.subrange(i as int + 2, n as int)),
                        );
                    }
                    out.push(d);
                    i = i + 2;
                } else {
                    return None;
                }
            } else {
                proof {
                    assert(s_i.len() == 1);
                }
                return None;
            }
        } else {
            proof {
                assert(s_i.subrange(1, s_i.len() as int) =~= t@.subrange(i as int + 1, n as int));
                lemma_prepend_shift(out@, c, parse_quoted(t@.subrange(i as int + 1, n as int)));
            }
            out.push(c);
            i = i + 1;
        }
    }
}

} // verus!
