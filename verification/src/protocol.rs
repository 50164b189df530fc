use vstd::prelude::*;
use vstd::string::StrSliceExecFns;
use vstd::string::StringExecFns;
use crate::address::{first_idx, lemma_first_idx_absent, lemma_first_idx_found};
use crate::strutil::{push_char, str_starts_with};

verus! {

// ---------------------------------------------------------------------------
// Splitting
// ---------------------------------------------------------------------------

/// The pieces of a string between occurrences of a separator; never empty,
/// and the separator appears in no piece.
pub open spec fn spec_split(s: Seq<char>, c: char) -> Seq<Seq<char>>
    decreases s.len(),
{
    let i = first_idx(s, c);
    if i < 0 || i >= s.len() {
        seq![s]
    } else {
        seq![s.take(i)] + spec_split(s.skip(i + 1), c)
    }
}

/// Splits a string on a separator character.
pub fn split_str(s: &str, c: char) -> (r: Vec<String>)
    ensures
        r@.map_values(|x: String| x@) == spec_split(s@, c),
        r@.len() >= 1,
{
    let n = s.unicode_len();
    let mut out: Vec<String> = Vec::new();
    let mut start: usize = 0;
    let mut i: usize = 0;
    proof {
        assert(s@.skip(0) =~= s@);
        assert(out@.map_values(|x: String| x@) =~= Seq::<Seq<char>>::empty());
        assert(out@.map_values(|x: String| x@) + spec_split(s@, c)
            =~= spec_split(s@, c));
    }
    while i < n
        invariant
            start <= i <= n,
            n == s@.len(),
            forall|k: int| start <= k < i ==> s@[k] != c,
            out@.map_values(|x: String| x@) + spec_split(s@.skip(start as int), c)
                =~= spec_split(s@, c),
            spec_split(s@.skip(start as int), c).len() >= 1,
        decreases n - i,
    {
        if s.get_char(i) == c {
            let piece = s.substring_char(start, i);
            let ghost pre = out@;
            out.push(String::from_str(piece));
            proof {
                let t = s@.skip(start as int);
                assert(t =~= s@.subrange(start as int, i as int) + seq![c]
                    + s@.skip(i as int + 1));
                lemma_first_idx_found(
                    s@.subrange(start as int, i as int),
                    s@.skip(i as int + 1),
                    c,
                );
                assert(first_idx(t, c) == i - start);
                assert(t.take(i - start) =~= piece@);
                assert(t.skip(i - start + 1) =~= s@.skip(i as int + 1));
                assert(out@.map_values(|x: String| x@)
                    =~= pre.map_values(|x: String| x@) + seq![piece@]);
                assert(out@.map_values(|x: String| x@)
                    + spec_split(s@.skip(i as int + 1), c) =~= spec_split(s@, c));
            }
            start = i + 1;
        }
        i = i + 1;
    }
    let last = s.substring_char(start, n);
    let ghost pre = out@;
    out.push(String::from_str(last));
    proof {
        let t = s@.skip(start as int);
        assert(forall|k: int| 0 <= k < t.len() ==> t[k] == s@[k + start]);
        lemma_first_idx_absent(t, c);
        assert(spec_split(t, c) =~= seq![t]);
        assert(t =~= last@);
        assert(out@.map_values(|x: String| x@)
            =~= pre.map_values(|x: String| x@) + seq![last@]);
        assert(out@.map_values(|x: String| x@) =~= spec_split(s@, c));
    }
    out
}

// ---------------------------------------------------------------------------
// Percent-decoding
// ---------------------------------------------------------------------------

/// Undoes the percent-encoding of the JSON punctuation that the relay
/// escapes: `"`, `{`, `}`, `:` and `,`.
pub open spec fn spec_pct_decode(s: Seq<char>) -> Seq<char>
    decreases s.len(),
{
    if s.len() == 0 {
        Seq::empty()
    } else if s.len() >= 3 && s[0] == '%' {
        if s[1] == '2' && s[2] == '2' {
            seq!['"'] + spec_pct_decode(s.skip(3))
        } else if s[1] == '7' && s[2] == 'B' {
            seq!['{'] + spec_pct_decode(s.skip(3))
        } else if s[1] == '7' && s[2] == 'D' {
            seq!['}'] + spec_pct_decode(s.skip(3))
        } else if s[1] == '3' && s[2] == 'A' {
            seq![':'] + spec_pct_decode(s.skip(3))
        } else if s[1] == '2' && s[2] == 'C' {
            seq![','] + spec_pct_decode(s.skip(3))
        } else {
            seq![s[0]] + spec_pct_decode(s.skip(1))
        }
    } else {
        seq![s[0]] + spec_pct_decode(s.skip(1))
    }
}

/// Percent-decodes the escaped JSON punctuation in one pass.
pub fn pct_decode(s: &str) -> (r: String)
    ensures
        r@ == spec_pct_decode(s@),
{
    let n = s.unicode_len();
    let mut out = String::new();
    let mut i: usize = 0;
    proof {
        assert(s@.skip(0) =~= s@);
        assert(out@ + spec_pct_decode(s@.skip(0)) =~= spec_pct_decode(s@));
    }
    while i < n
        invariant
            i <= n,
            n == s@.len(),
            out@ + spec_pct_decode(s@.skip(i as int)) == spec_pct_decode(s@),
        decreases n - i,
    {
        let ghost t = s@.skip(i as int);
        let c = s.get_char(i);
        proof {
            assert(t[0] == s@[i as int]);
            assert(t.len() == n - i);
        }
        if c == '%' && n - i > 2 {
            let c1 = s.get_char(i + 1);
            let c2 = s.get_char(i + 2);
            proof {
                assert(t[1] == s@[i as int + 1]);
                assert(t[2] == s@[i as int + 2]);
                assert(t.skip(3) =~= s@.skip(i as int + 3));
                assert(t.skip(1) =~= s@.skip(i as int + 1));
            }
            if c1 == '2' && c2 == '2' {
                push_char(&mut out, '"');
                i = i + 3;
            } else if c1 == '7' && c2 == 'B' {
                push_char(&mut out, '{');
                i = i + 3;
            } else if c1 == '7' && c2 == 'D' {
                push_char(&mut out, '}');
                i = i + 3;
            } else if c1 == '3' && c2 == 'A' {
                push_char(&mut out, ':');
                i = i + 3;
            } else if c1 == '2' && c2 == 'C' {
                push_char(&mut out, ',');
                i = i + 3;
            } else {
                push_char(&mut out, c);
                i = i + 1;
            }
        } else {
            proof {
                assert(t.skip(1) =~= s@.skip(i as int + 1));
            }
            push_char(&mut out, c);
            i = i + 1;
        }
        proof {
            assert(out@ + spec_pct_decode(s@.skip(i as int)) =~= spec_pct_decode(s@));
        }
    }
    proof {
        assert(s@.skip(n as int) =~= Seq::<char>::empty());
        assert(out@ =~= spec_pct_decode(s@));
    }
    out
}

// ---------------------------------------------------------------------------
// Trimming
// ---------------------------------------------------------------------------

/// An ASCII whitespace character.
pub open spec fn is_ws(c: char) -> bool {
    c == ' ' || c == '\n' || c == '\r' || c == '\t'
}

/// How many whitespace characters the string starts with.
pub open spec fn leading_ws(s: Seq<char>) -> int
    decreases s.len(),
{
    if s.len() == 0 {
        0
    } else if is_ws(s[0]) {
        1 + leading_ws(s.drop_first())
    } else {
        0
    }
}

/// How many whitespace characters the string ends with.
pub open spec fn trailing_ws(s: Seq<char>) -> int
    decreases s.len(),
{
    if s.len() == 0 {
        0
    } else if is_ws(s.last()) {
        1 + trailing_ws(s.drop_last())
    } else {
        0
    }
}

/// The string without its leading and trailing whitespace.
pub open spec fn spec_trim(s: Seq<char>) -> Seq<char> {
    let l = leading_ws(s);
    let t = trailing_ws(s);
    if l + t <= s.len() {
        s.subrange(l, s.len() - t)
    } else {
        Seq::empty()
    }
}

/// The run of whitespace at the front is maximal.
proof fn lemma_leading_ws(s: Seq<char>, l: int)
    requires
        0 <= l <= s.len(),
        forall|k: int| 0 <= k < l ==> is_ws(s[k]),
        l < s.len() ==> !is_ws(s[l]),
    ensures
        leading_ws(s) == l,
    decreases l,
{
    if l == 0 {
    } else {
        assert(is_ws(s[0]));
        assert(forall|k: int| 0 <= k < s.drop_first().len()
            ==> s.drop_first()[k] == s[k + 1]);
        lemma_leading_ws(s.drop_first(), l - 1);
    }
}

/// The run of whitespace at the back is maximal.
proof fn lemma_trailing_ws(s: Seq<char>, t: int)
    requires
        0 <= t <= s.len(),
        forall|k: int| s.len() - t <= k < s.len() ==> is_ws(s[k]),
        t < s.len() ==> !is_ws(s[s.len() - t - 1]),
    ensures
        trailing_ws(s) == t,
    decreases t,
{
    if t == 0 {
    } else {
        assert(is_ws(s.last()));
        assert(forall|k: int| 0 <= k < s.drop_last().len()
            ==> s.drop_last()[k] == s[k]);
        lemma_trailing_ws(s.drop_last(), t - 1);
    }
}

/// Removes leading and trailing whitespace.
pub fn trim_str(s: &str) -> (r: String)
    ensures
        r@ == spec_trim(s@),
{
    let n = s.unicode_len();
    let mut a: usize = 0;
    let mut stop = false;
    while a < n && !stop
        invariant
            a <= n,
            n == s@.len(),
            forall|k: int| 0 <= k < a ==> is_ws(s@[k]),
            stop ==> a < n && !is_ws(s@[a as int]),
        decreases n - a + (if stop { 0int } else { 1int }),
    {
        let c = s.get_char(a);
        if c == ' ' || c == '\n' || c == '\r' || c == '\t' {
            a = a + 1;
        } else {
            stop = true;
        }
    }
    if a == n {
        proof {
            lemma_leading_ws(s@, n as int);
            lemma_trailing_ws(s@, n as int);
            assert(s@.subrange(0, 0) =~= Seq::<char>::empty());
        }
        return String::new();
    }
    let mut b: usize = n;
    let mut stop2 = false;
    while b > a && !stop2
        invariant
            a <= b <= n,
            n == s@.len(),
            a < n,
            !is_ws(s@[a as int]),
            forall|k: int| 0 <= k < a ==> is_ws(s@[k]),
            forall|k: int| b <= k < n ==> is_ws(s@[k]),
            stop2 ==> b > a && !is_ws(s@[b - 1]),
        decreases b + (if stop2 { 0int } else { 1int }),
    {
        let c = s.get_char(b - 1);
        if c == ' ' || c == '\n' || c == '\r' || c == '\t' {
            b = b - 1;
        } else {
            stop2 = true;
        }
    }
    proof {
        if b == a {
            assert(is_ws(s@[a as int]));
            assert(false);
        }
        lemma_leading_ws(s@, a as int);
        lemma_trailing_ws(s@, n - b as int);
    }
    let out = s.substring_char(a, b);
    String::from_str(out)
}

// ---------------------------------------------------------------------------
// The payload grammar
// ---------------------------------------------------------------------------

/// The three fields of one well-formed payload, as ghost sequences.
pub struct FieldsView {
    pub from: Seq<char>,
    pub signature: Seq<char>,
    pub mapmessage: Seq<char>,
}

/// What one payload means to the listener.
pub enum PayloadSpec {
    Sentinel,
    Malformed,
    Fields(FieldsView),
}

/// The broker's own shutdown wake-up message.
pub open spec fn spec_is_sentinel(p: Seq<char>) -> bool {
    p == "message: mapmessage=nil\n"@ || p == "mapmessage=nil"@
}

/// The value of one `key=value` field: the text between the first and the
/// second `=`, or to the end.
pub open spec fn spec_field_value(f: Seq<char>) -> Option<Seq<char>> {
    let parts = spec_split(f, '=');
    if parts.len() >= 2 {
        Some(parts[1])
    } else {
        None
    }
}

/// The first field that starts with the key and carries a value.
pub open spec fn spec_find_field(fields: Seq<Seq<char>>, key: Seq<char>) -> Option<
    Seq<char>,
>
    decreases fields.len(),
{
    if fields.len() == 0 {
        None
    } else {
        let h = fields[0];
        if h.len() >= key.len() && h.take(key.len() as int) == key
            && spec_field_value(h) is Some {
            spec_field_value(h)
        } else {
            spec_find_field(fields.drop_first(), key)
        }
    }
}

/// What one payload parses to: the sentinel is recognised first; then the
/// second space-separated word (or the whole payload) must hold exactly
/// three `&`-separated fields carrying `from`, `signature` and `mapmessage`;
/// anything else is malformed and is to be skipped.
pub open spec fn spec_payload(p: Seq<char>) -> PayloadSpec {
    if spec_is_sentinel(p) {
        PayloadSpec::Sentinel
    } else {
        let sp = spec_split(p, ' ');
        let target = if sp.len() == 1 {
            sp[0]
        } else {
            sp[1]
        };
        let fields = spec_split(target, '&');
        if fields.len() != 3 {
            PayloadSpec::Malformed
        } else {
            let f = spec_find_field(fields, "from="@);
            let g = spec_find_field(fields, "signature="@);
            let m = spec_find_field(fields, "mapmessage="@);
            if f is Some && g is Some && m is Some {
                PayloadSpec::Fields(FieldsView {
                    from: spec_trim(f.unwrap()),
                    signature: spec_trim(g.unwrap()),
                    mapmessage: spec_trim(spec_pct_decode(m.unwrap())),
                })
            } else {
                PayloadSpec::Malformed
            }
        }
    }
}

/// The three fields of one well-formed payload.
pub struct PayloadFields {
    pub from: String,
    pub signature: String,
    pub mapmessage: String,
}

/// What the listener does with one payload.
pub enum PayloadOutcome {
    Sentinel,
    Malformed,
    Fields(PayloadFields),
}

/// The first field that starts with the key and carries a value.
fn find_field(fields: &Vec<String>, key: &str) -> (r: Option<String>)
    ensures
        match r {
            Some(v) => spec_find_field(fields@.map_values(|x: String| x@), key@)
                == Some(v@),
            None => spec_find_field(fields@.map_values(|x: String| x@), key@) is None,
        },
{
    let ghost whole = fields@.map_values(|x: String| x@);
    let n = fields.len();
    let mut i: usize = 0;
    proof {
        assert(whole.skip(0) =~= whole);
    }
    while i < n
        invariant
            i <= n,
            n == fields@.len(),
            whole == fields@.map_values(|x: String| x@),
            spec_find_field(whole.skip(i as int), key@) == spec_find_field(whole, key@),
        decreases n - i,
    {
        proof {
            assert(whole.skip(i as int)[0] == whole[i as int]);
            assert(whole.skip(i as int).drop_first() =~= whole.skip(i as int + 1));
        }
        let f: &String = &fields[i];
        if str_starts_with(f.as_str(), key) {
            let parts = split_str(f.as_str(), '=');
            if parts.len() >= 2 {
                let v: &String = &parts[1];
                proof {
                    assert(parts@.map_values(|x: String| x@)[1] == v@);
                }
                return Some(v.clone());
            }
        }
        i = i + 1;
    }
    proof {
        assert(whole.skip(n as int) =~= Seq::<Seq<char>>::empty());
    }
    None
}

/// Reads one payload off the wire.
pub fn process_payload(p: &str) -> (r: PayloadOutcome)
    ensures
        match r {
            PayloadOutcome::Sentinel => spec_payload(p@) == PayloadSpec::Sentinel,
            PayloadOutcome::Malformed => spec_payload(p@) == PayloadSpec::Malformed,
            PayloadOutcome::Fields(f) => spec_payload(p@) == PayloadSpec::Fields(
                FieldsView { from: f.from@, signature: f.signature@, mapmessage: f.mapmessage@ },
            ),
        },
{
    if crate::strutil::str_eq(p, "message: mapmessage=nil\n")
        || crate::strutil::str_eq(p, "mapmessage=nil") {
        return PayloadOutcome::Sentinel;
    }
    let sp = split_str(p, ' ');
    let target: &String = if sp.len() == 1 {
        &sp[0]
    } else {
        &sp[1]
    };
    proof {
        assert(sp@.map_values(|x: String| x@)[0] == sp@[0]@);
        if sp@.len() > 1 {
            assert(sp@.map_values(|x: String| x@)[1] == sp@[1]@);
        }
    }
    let fields = split_str(target.as_str(), '&');
    if fields.len() != 3 {
        return PayloadOutcome::Malformed;
    }
    let f = find_field(&fields, "from=");
    let g = find_field(&fields, "signature=");
    let m = find_field(&fields, "mapmessage=");
    match (f, g, m) {
        (Some(fv), Some(gv), Some(mv)) => {
            let decoded = pct_decode(mv.as_str());
            PayloadOutcome::Fields(PayloadFields {
                from: trim_str(fv.as_str()),
                signature: trim_str(gv.as_str()),
                mapmessage: trim_str(decoded.as_str()),
            })
        },
        _ => PayloadOutcome::Malformed,
    }
}

// ---------------------------------------------------------------------------
// The response body
// ---------------------------------------------------------------------------

/// The payloads listed from one digest line onward: the second
/// space-separated word of each line that has one.
pub open spec fn payloads_of(lines: Seq<Seq<char>>, k: int) -> Seq<Seq<char>>
    decreases lines.len() - k,
{
    if k < 0 || k >= lines.len() {
        Seq::empty()
    } else {
        let p = spec_split(lines[k], ' ');
        (if p.len() >= 2 {
            seq![p[1]]
        } else {
            Seq::<Seq<char>>::empty()
        }) + payloads_of(lines, k + 1)
    }
}

/// The payloads one response body carries: either a digest that lists one
/// per line after a marker line, or a single bare payload.
pub open spec fn spec_response_payloads(body: Seq<char>) -> Seq<Seq<char>> {
    if body.len() >= 13 && body.take(13) == "messagelist: "@ {
        payloads_of(spec_split(body, '\n'), 1)
    } else {
        seq![body]
    }
}

/// Extracts every payload from one response body.
pub fn extract_payloads(body: &str) -> (r: Vec<String>)
    ensures
        r@.map_values(|x: String| x@) == spec_response_payloads(body@),
{
    proof {
        reveal_strlit("messagelist: ");
    }
    if !str_starts_with(body, "messagelist: ") {
        let mut out: Vec<String> = Vec::new();
        out.push(String::from_str(body));
        proof {
            assert(out@.map_values(|x: String| x@) =~= seq![body@]);
        }
        return out;
    }
    let lines = split_str(body, '\n');
    let ghost lview = lines@.map_values(|x: String| x@);
    let n = lines.len();
    let mut out: Vec<String> = Vec::new();
    let mut k: usize = 1;
    proof {
        assert(out@.map_values(|x: String| x@) + payloads_of(lview, 1)
            =~= payloads_of(lview, 1));
    }
    while k < n
        invariant
            1 <= k <= n || (n == 0 && k == 1),
            n == lines@.len(),
            lview == lines@.map_values(|x: String| x@),
            out@.map_values(|x: String| x@) + payloads_of(lview, k as int)
                == payloads_of(lview, 1),
        decreases n - k,
    {
        let parts = split_str(lines[k].as_str(), ' ');
        proof {
            assert(lview[k as int] == lines@[k as int]@);
        }
        if parts.len() >= 2 {
            let ghost pre = out@;
            let v: &String = &parts[1];
            proof {
                assert(parts@.map_values(|x: String| x@)[1] == v@);
            }
            out.push(v.clone());
            proof {
                assert(out@.map_values(|x: String| x@)
                    =~= pre.map_values(|x: String| x@) + seq![v@]);
            }
        }
        k = k + 1;
        proof {
            assert(out@.map_values(|x: String| x@) + payloads_of(lview, k as int)
                =~= payloads_of(lview, 1));
        }
    }
    proof {
        assert(payloads_of(lview, k as int) =~= Seq::<Seq<char>>::empty());
        assert(out@.map_values(|x: String| x@) =~= payloads_of(lview, 1));
        assert(body@.take(13) == "messagelist: "@);
    }
    out
}

} // verus!
