use vstd::prelude::*;
use vstd::string::StrSliceExecFns;
use vstd::string::StringExecFns;
use crate::base58::{all_b58, b58_val, spec_b58_decode, spec_checksum};
use crate::crypto::{spec_pk_valid, PublicKey};
use crate::error::ErrorKind;
use crate::strutil::{all_dec, dec_val, nat_of_dec};

verus! {

// ---------------------------------------------------------------------------
// The relay address grammar
// ---------------------------------------------------------------------------

/// The network version bytes carried inside every relay address.
pub open spec fn spec_version() -> Seq<u8> {
    seq![1u8, 69u8]
}

/// The version bytes as a vector.
pub fn version_bytes() -> (r: Vec<u8>)
    ensures
        r@ == spec_version(),
{
    let mut v: Vec<u8> = Vec::new();
    v.push(1u8);
    v.push(69u8);
    proof {
        assert(v@ =~= spec_version());
    }
    v
}

/// A valid key string: base58 text that decodes to the version bytes, a
/// 33-byte public key, and a matching checksum.
pub open spec fn valid_key_str(s: Seq<char>) -> bool {
    &&& all_b58(s)
    &&& {
        let v = spec_b58_decode(s).unwrap();
        &&& v.len() == 39
        &&& v.take(2) == spec_version()
        &&& v.skip(35) == spec_checksum(v.take(35))
        &&& spec_pk_valid(v.subrange(2, 35))
    }
}

/// The public key bytes encoded in a valid key string.
pub open spec fn spec_key_of(s: Seq<char>) -> Seq<u8> {
    spec_b58_decode(s).unwrap().subrange(2, 35)
}

/// A character allowed in a relay domain name.
pub open spec fn is_domain_char(c: char) -> bool {
    let u = c as u32;
    (48 <= u <= 57) || (65 <= u <= 90) || (97 <= u <= 122) || u == 46 || u == 45
}

/// Every character is allowed in a domain name.
pub open spec fn all_domain(s: Seq<char>) -> bool {
    forall|i: int| 0 <= i < s.len() ==> is_domain_char(s[i])
}

/// The index of the first occurrence of a character, or -1.
pub open spec fn first_idx(s: Seq<char>, c: char) -> int
    decreases s.len(),
{
    if s.len() == 0 {
        -1
    } else if s[0] == c {
        0
    } else {
        let r = first_idx(s.drop_first(), c);
        if r < 0 {
            -1
        } else {
            r + 1
        }
    }
}

/// A string without the character has no first occurrence.
pub proof fn lemma_first_idx_absent(s: Seq<char>, c: char)
    requires
        forall|i: int| 0 <= i < s.len() ==> s[i] != c,
    ensures
        first_idx(s, c) == -1,
    decreases s.len(),
{
    if s.len() > 0 {
        assert(forall|i: int| 0 <= i < s.drop_first().len()
            ==> s.drop_first()[i] == s[i + 1]);
        lemma_first_idx_absent(s.drop_first(), c);
    }
}

/// The first occurrence after a clean prefix is right after that prefix.
pub proof fn lemma_first_idx_found(a: Seq<char>, b: Seq<char>, c: char)
    requires
        forall|i: int| 0 <= i < a.len() ==> a[i] != c,
    ensures
        first_idx(a + seq![c] + b, c) == a.len(),
    decreases a.len(),
{
    let s = a + seq![c] + b;
    if a.len() == 0 {
        assert(s[0] == c);
    } else {
        assert(s[0] == a[0]);
        assert(s[0] != c);
        assert(s.drop_first() =~= a.drop_first() + seq![c] + b);
        assert(forall|i: int| 0 <= i < a.drop_first().len()
            ==> a.drop_first()[i] == a[i + 1]);
        lemma_first_idx_found(a.drop_first(), b, c);
    }
}

/// The relay scheme prefix.
pub open spec fn scheme_seq() -> Seq<char> {
    "mwcmqs://"@
}

/// Whether the text begins with the relay scheme.
pub open spec fn has_scheme(s: Seq<char>) -> bool {
    s.len() >= 9 && s.take(9) == scheme_seq()
}

/// The text with the relay scheme removed, when present.
pub open spec fn strip_scheme(s: Seq<char>) -> Seq<char> {
    if has_scheme(s) {
        s.skip(9)
    } else {
        s
    }
}

/// The parts of a relay address: the key string and the optional transport
/// decoration.
pub struct AddrView {
    pub key: Seq<char>,
    pub domain: Option<Seq<char>>,
    pub port: Option<u16>,
}

/// The grammar of everything after the scheme:
/// `<key>[@<domain>[:<port>]]`.
pub open spec fn spec_parse_rest(t: Seq<char>) -> Option<AddrView> {
    let ai = first_idx(t, '@');
    if ai < 0 {
        if valid_key_str(t) {
            Some(AddrView { key: t, domain: None, port: None })
        } else {
            None
        }
    } else {
        let key = t.take(ai);
        let rest = t.skip(ai + 1);
        if !valid_key_str(key) {
            None
        } else {
            let ci = first_idx(rest, ':');
            if ci < 0 {
                if rest.len() > 0 && all_domain(rest) {
                    Some(AddrView { key, domain: Some(rest), port: None })
                } else {
                    None
                }
            } else {
                let dom = rest.take(ci);
                let ps = rest.skip(ci + 1);
                if dom.len() > 0 && all_domain(dom) && ps.len() > 0 && all_dec(ps)
                    && nat_of_dec(ps) <= u16::MAX {
                    Some(AddrView {
                        key,
                        domain: Some(dom),
                        port: Some(nat_of_dec(ps) as u16),
                    })
                } else {
                    None
                }
            }
        }
    }
}

/// What a relay address string parses to, scheme and all.
pub open spec fn spec_parse_mwcmqs(s: Seq<char>) -> Option<AddrView> {
    spec_parse_rest(strip_scheme(s))
}

// ---------------------------------------------------------------------------
// The relay address type
// ---------------------------------------------------------------------------

/// An endpoint name on the long-poll relay: a base58check key string with an
/// optional `@domain[:port]` suffix.
#[derive(Clone, Debug)]
pub struct MWCMQSAddress {
    pub public_key: String,
    pub domain: Option<String>,
    pub port: Option<u16>,
}

impl View for MWCMQSAddress {
    type V = AddrView;

    open spec fn view(&self) -> AddrView {
        AddrView {
            key: self.public_key@,
            domain: match self.domain {
                Some(d) => Some(d@),
                None => None,
            },
            port: self.port,
        }
    }
}

impl MWCMQSAddress {
    /// A well-formed relay address: valid key string, well-formed domain,
    /// and a port only beside a domain.
    pub open spec fn wf(&self) -> bool {
        &&& valid_key_str(self@.key)
        &&& match self@.domain {
            Some(d) => d.len() > 0 && all_domain(d),
            None => self@.port is None,
        }
    }

    /// An equal copy of this address.
    pub fn duplicate(&self) -> (r: MWCMQSAddress)
        ensures
            r@ == self@,
    {
        MWCMQSAddress {
            public_key: self.public_key.clone(),
            domain: match &self.domain {
                Some(d) => Some(d.clone()),
                None => None,
            },
            port: self.port,
        }
    }

    /// The identifier without transport decoration, used for display, for
    /// equality, and on the wire.
    pub fn stripped(&self) -> (r: String)
        ensures
            r@ == self@.key,
    {
        self.public_key.clone()
    }

    /// The full canonical form; parsing it gives back exactly this address.
    pub fn canonical_form(&self) -> (r: String)
        requires
            self.wf(),
        ensures
            spec_parse_mwcmqs(r@) == Some(self@),
    {
        let mut out = String::from_str("mwcmqs://");
        out.append(self.public_key.as_str());
        match &self.domain {
            None => {},
            Some(d) => {
                out.append("@");
                out.append(d.as_str());
                match &self.port {
                    None => {},
                    Some(p) => {
                        out.append(":");
                        let ps = crate::strutil::u64_to_string(*p as u64);
                        out.append(ps.as_str());
                        proof {
                            reveal_strlit("@");
                            reveal_strlit(":");
                            assert(out@ =~= scheme_seq() + self@.key + seq!['@']
                                + self@.domain.unwrap() + seq![':'] + ps@);
                            lemma_canonical_parses(
                                self@.key,
                                self@.domain,
                                self@.port,
                                out@,
                                ps@,
                            );
                        }
                    },
                }
                if self.port.is_none() {
                    proof {
                        reveal_strlit("@");
                        assert(out@ =~= scheme_seq() + self@.key + seq!['@']
                            + self@.domain.unwrap());
                        lemma_canonical_parses(
                            self@.key,
                            self@.domain,
                            self@.port,
                            out@,
                            Seq::<char>::empty(),
                        );
                    }
                }
            },
        }
        if self.domain.is_none() {
            proof {
                assert(out@ =~= scheme_seq() + self@.key);
                lemma_canonical_parses(
                    self@.key,
                    self@.domain,
                    self@.port,
                    out@,
                    Seq::<char>::empty(),
                );
            }
        }
        out
    }

    /// Recovers the elliptic-curve public key named by this address.
    pub fn public_key(&self) -> (r: Result<PublicKey, ErrorKind>)
        requires
            self.wf(),
        ensures
            match r {
                Ok(k) => k@ == spec_key_of(self@.key) && k.wf(),
                Err(_) => false,
            },
    {
        proof {
            let v = spec_b58_decode(self.public_key@).unwrap();
            assert(v.len() == 39);
            assert(v.skip(v.len() - 4) =~= v.skip(35));
            assert(v.take(v.len() - 4) =~= v.take(35));
        }
        let parts = match crate::base58::from_base58check(self.public_key.as_str(), 2) {
            Ok(p) => p,
            Err(e) => {
                proof {
                    assert(false);
                }
                return Err(e);
            },
        };
        let (_, data) = parts;
        proof {
            let v = spec_b58_decode(self.public_key@).unwrap();
            assert(data@ == v.subrange(2, 35));
        }
        match PublicKey::from_bytes(data) {
            Ok(k) => Ok(k),
            Err(e) => {
                proof {
                    assert(false);
                }
                Err(e)
            },
        }
    }
}

/// The canonical spelling of an address parses back to its parts.
proof fn lemma_canonical_parses(
    key: Seq<char>,
    domain: Option<Seq<char>>,
    port: Option<u16>,
    s: Seq<char>,
    ps: Seq<char>,
)
    requires
        valid_key_str(key),
        match domain {
            Some(d) => d.len() > 0 && all_domain(d),
            None => port is None,
        },
        match port {
            Some(p) => {
                &&& domain is Some
                &&& all_dec(ps)
                &&& ps.len() > 0
                &&& nat_of_dec(ps) == p
                &&& s == scheme_seq() + key + seq!['@'] + domain.unwrap() + seq![':'] + ps
            },
            None => match domain {
                Some(d) => s == scheme_seq() + key + seq!['@'] + d,
                None => s == scheme_seq() + key,
            },
        },
    ensures
        spec_parse_mwcmqs(s) == Some(AddrView { key, domain, port }),
{
    reveal_strlit("mwcmqs://");
    assert(scheme_seq().len() == 9);
    let t0 = strip_scheme(s);
    assert(s.take(9) =~= scheme_seq());
    assert(has_scheme(s));
    // base58 characters are never '@', ':' or '/'
    assert forall|i: int| 0 <= i < key.len() implies key[i] != '@' && key[i] != ':' by {
        assert(b58_val(key[i]) >= 0);
    }
    match domain {
        None => {
            assert(t0 =~= key);
            lemma_first_idx_absent(key, '@');
        },
        Some(d) => {
            assert forall|i: int| 0 <= i < d.len() implies d[i] != ':' && d[i] != '@' by {
                assert(is_domain_char(d[i]));
            }
            match port {
                None => {
                    assert(t0 =~= key + seq!['@'] + d);
                    lemma_first_idx_found(key, d, '@');
                    let rest = t0.skip(key.len() as int + 1);
                    assert(rest =~= d);
                    assert(t0.take(key.len() as int) =~= key);
                    lemma_first_idx_absent(d, ':');
                },
                Some(p) => {
                    assert forall|i: int| 0 <= i < ps.len() implies ps[i] != '@' && ps[i] != ':' by {
                        assert(dec_val(ps[i]) >= 0);
                    }
                    assert(t0 =~= key + seq!['@'] + (d + seq![':'] + ps));
                    lemma_first_idx_found(key, d + seq![':'] + ps, '@');
                    let rest = t0.skip(key.len() as int + 1);
                    assert(rest =~= d + seq![':'] + ps);
                    assert(t0.take(key.len() as int) =~= key);
                    lemma_first_idx_found(d, ps, ':');
                    assert(rest.take(d.len() as int) =~= d);
                    assert(rest.skip(d.len() as int + 1) =~= ps);
                },
            }
        },
    }
}

// ---------------------------------------------------------------------------
// Parsing relay addresses
// ---------------------------------------------------------------------------

/// Checks one key string; accepts exactly the valid ones.
fn check_key_str(key: &str) -> (r: Result<(), ErrorKind>)
    ensures
        r is Ok <==> valid_key_str(key@),
        match r {
            Ok(_) => true,
            Err(e) => e matches ErrorKind::InvalidBase58Character(_, _) || e matches
                ErrorKind::InvalidBase58Length || e matches
                ErrorKind::InvalidBase58Checksum || e matches
                ErrorKind::InvalidBase58Version || e matches ErrorKind::InvalidBase58Key,
        },
{
    let parts = match crate::base58::from_base58check(key, 2) {
        Ok(p) => p,
        Err(e) => {
            return Err(e);
        },
    };
    let (ver, data) = parts;
    let ghost v = spec_b58_decode(key@).unwrap();
    if data.len() != 33 {
        proof {
            assert(v.len() != 39);
        }
        return Err(ErrorKind::InvalidBase58Length);
    }
    proof {
        assert(v.len() == 39);
        assert(v =~= ver@ + data@ + spec_checksum(ver@ + data@));
        assert(ver@ =~= v.take(2));
        assert(data@ =~= v.subrange(2, 35));
        assert(v.take(35) =~= ver@ + data@);
        assert(v.skip(35) =~= spec_checksum(v.take(35)));
    }
    if !(ver[0] == 1u8 && ver[1] == 69u8) {
        proof {
            assert(v.take(2) != spec_version());
        }
        return Err(ErrorKind::InvalidBase58Version);
    }
    proof {
        assert(v.take(2) =~= spec_version());
    }
    match PublicKey::from_bytes(data) {
        Ok(_) => Ok(()),
        Err(_) => Err(ErrorKind::InvalidBase58Key),
    }
}

/// Checks a domain name: nonempty, with only domain characters.
fn check_domain(d: &str) -> (r: bool)
    ensures
        r == (d@.len() > 0 && all_domain(d@)),
{
    let n = d.unicode_len();
    if n == 0 {
        return false;
    }
    let mut i: usize = 0;
    while i < n
        invariant
            i <= n,
            n == d@.len(),
            forall|k: int| 0 <= k < i ==> is_domain_char(d@[k]),
        decreases n - i,
    {
        let u = d.get_char(i) as u32;
        if !((48 <= u && u <= 57) || (65 <= u && u <= 90) || (97 <= u && u <= 122)
            || u == 46 || u == 45) {
            return false;
        }
        i = i + 1;
    }
    true
}

impl MWCMQSAddress {
    /// Parses a relay address: an optional `mwcmqs://` scheme, a key string,
    /// and an optional `@domain[:port]` suffix.
    pub fn from_str(s: &str) -> (r: Result<MWCMQSAddress, ErrorKind>)
        ensures
            match r {
                Ok(a) => spec_parse_mwcmqs(s@) == Some(a@) && a.wf(),
                Err(e) => spec_parse_mwcmqs(s@) is None && (e matches
                    ErrorKind::InvalidBase58Character(_, _) || e matches
                    ErrorKind::InvalidBase58Length || e matches
                    ErrorKind::InvalidBase58Checksum || e matches
                    ErrorKind::InvalidBase58Version || e matches
                    ErrorKind::InvalidBase58Key || e matches
                    ErrorKind::GrinboxAddressParsingError(_)),
            },
    {
        let n = s.unicode_len();
        let has = n >= 9 && s.get_char(0) == 'm' && s.get_char(1) == 'w'
            && s.get_char(2) == 'c' && s.get_char(3) == 'm' && s.get_char(4) == 'q'
            && s.get_char(5) == 's' && s.get_char(6) == ':' && s.get_char(7) == '/'
            && s.get_char(8) == '/';
        proof {
            reveal_strlit("mwcmqs://");
            if has {
                assert(s@.take(9) =~= scheme_seq());
            } else if n >= 9 {
                if s@.take(9) == scheme_seq() {
                    assert(s@.take(9)[0] == s@[0] && s@.take(9)[1] == s@[1]
                        && s@.take(9)[2] == s@[2] && s@.take(9)[3] == s@[3]
                        && s@.take(9)[4] == s@[4] && s@.take(9)[5] == s@[5]
                        && s@.take(9)[6] == s@[6] && s@.take(9)[7] == s@[7]
                        && s@.take(9)[8] == s@[8]);
                    assert(false);
                }
            }
        }
        let t: &str = if has {
            s.substring_char(9, n)
        } else {
            s
        };
        proof {
            assert(t@ == strip_scheme(s@));
        }
        let tn = t.unicode_len();
        let mut ai: usize = 0;
        let mut found = false;
        while ai < tn && !found
            invariant
                ai <= tn,
                tn == t@.len(),
                found ==> ai < tn && t@[ai as int] == '@',
                forall|k: int| 0 <= k < ai ==> t@[k] != '@',
            decreases tn - ai + (if found { 0int } else { 1int }),
        {
            if t.get_char(ai) == '@' {
                found = true;
            } else {
                ai = ai + 1;
            }
        }
        proof {
            if found {
                assert(t@ =~= t@.take(ai as int) + seq!['@'] + t@.skip(ai as int + 1));
                lemma_first_idx_found(t@.take(ai as int), t@.skip(ai as int + 1), '@');
                assert(first_idx(t@, '@') == ai);
            } else {
                lemma_first_idx_absent(t@, '@');
            }
        }
        if !found {
            if let Err(e) = check_key_str(t) {
                return Err(e);
            }
            return Ok(MWCMQSAddress {
                public_key: String::from_str(t),
                domain: None,
                port: None,
            });
        }
        let key = t.substring_char(0, ai);
        proof {
            assert(key@ == t@.take(ai as int));
        }
        if let Err(e) = check_key_str(key) {
            return Err(e);
        }
        let rest = t.substring_char(ai + 1, tn);
        proof {
            assert(rest@ == t@.skip(ai as int + 1));
        }
        let rn = rest.unicode_len();
        let mut ci: usize = 0;
        let mut cfound = false;
        while ci < rn && !cfound
            invariant
                ci <= rn,
                rn == rest@.len(),
                cfound ==> ci < rn && rest@[ci as int] == ':',
                forall|k: int| 0 <= k < ci ==> rest@[k] != ':',
            decreases rn - ci + (if cfound { 0int } else { 1int }),
        {
            if rest.get_char(ci) == ':' {
                cfound = true;
            } else {
                ci = ci + 1;
            }
        }
        proof {
            if cfound {
                assert(rest@ =~= rest@.take(ci as int) + seq![':']
                    + rest@.skip(ci as int + 1));
                lemma_first_idx_found(rest@.take(ci as int), rest@.skip(ci as int + 1), ':');
                assert(first_idx(rest@, ':') == ci);
            } else {
                lemma_first_idx_absent(rest@, ':');
            }
        }
        if !cfound {
            if !check_domain(rest) {
                return Err(ErrorKind::GrinboxAddressParsingError(String::from_str(s)));
            }
            return Ok(MWCMQSAddress {
                public_key: String::from_str(key),
                domain: Some(String::from_str(rest)),
                port: None,
            });
        }
        let dom = rest.substring_char(0, ci);
        let ps = rest.substring_char(ci + 1, rn);
        proof {
            assert(dom@ == rest@.take(ci as int));
            assert(ps@ == rest@.skip(ci as int + 1));
        }
        if !check_domain(dom) {
            return Err(ErrorKind::GrinboxAddressParsingError(String::from_str(s)));
        }
        let port = match crate::strutil::parse_u64(ps) {
            Some(p) => p,
            None => {
                return Err(ErrorKind::GrinboxAddressParsingError(String::from_str(s)));
            },
        };
        if port > 65535 {
            return Err(ErrorKind::GrinboxAddressParsingError(String::from_str(s)));
        }
        Ok(MWCMQSAddress {
            public_key: String::from_str(key),
            domain: Some(String::from_str(dom)),
            port: Some(port as u16),
        })
    }
}

// ---------------------------------------------------------------------------
// The other transports' addresses, and the polymorphic address
// ---------------------------------------------------------------------------

/// Which transport family an address names.
#[derive(Clone, Copy, Debug, PartialEq, Eq, Structural)]
pub enum AddressType {
    MWCMQS,
    Keybase,
    Https,
}

/// A character allowed in a local-agent handle.
pub open spec fn is_handle_char(c: char) -> bool {
    let u = c as u32;
    (48 <= u <= 57) || (65 <= u <= 90) || (97 <= u <= 122)
}

/// Every character is allowed in a handle.
pub open spec fn all_handle(s: Seq<char>) -> bool {
    forall|i: int| 0 <= i < s.len() ==> is_handle_char(s[i])
}

/// The parts of a local-agent address.
pub struct KeybaseView {
    pub username: Seq<char>,
    pub topic: Option<Seq<char>>,
}

/// A local-agent address: a bare alphanumeric handle with an optional topic.
#[derive(Clone, Debug)]
pub struct KeybaseAddress {
    pub username: String,
    pub topic: Option<String>,
}

impl View for KeybaseAddress {
    type V = KeybaseView;

    open spec fn view(&self) -> KeybaseView {
        KeybaseView {
            username: self.username@,
            topic: match self.topic {
                Some(t) => Some(t@),
                None => None,
            },
        }
    }
}

/// The grammar of a local-agent address: `keybase://<handle>[:<topic>]`.
pub open spec fn spec_parse_keybase(s: Seq<char>) -> Option<KeybaseView> {
    if !(s.len() >= 10 && s.take(10) == "keybase://"@) {
        None
    } else {
        let t = s.skip(10);
        let ci = first_idx(t, ':');
        if ci < 0 {
            if t.len() > 0 && all_handle(t) {
                Some(KeybaseView { username: t, topic: None })
            } else {
                None
            }
        } else {
            let user = t.take(ci);
            let topic = t.skip(ci + 1);
            if user.len() > 0 && all_handle(user) && topic.len() > 0 && all_handle(topic) {
                Some(KeybaseView { username: user, topic: Some(topic) })
            } else {
                None
            }
        }
    }
}

/// Checks a handle: nonempty and alphanumeric.
fn check_handle(d: &str) -> (r: bool)
    ensures
        r == (d@.len() > 0 && all_handle(d@)),
{
    let n = d.unicode_len();
    if n == 0 {
        return false;
    }
    let mut i: usize = 0;
    while i < n
        invariant
            i <= n,
            n == d@.len(),
            forall|k: int| 0 <= k < i ==> is_handle_char(d@[k]),
        decreases n - i,
    {
        let u = d.get_char(i) as u32;
        if !((48 <= u && u <= 57) || (65 <= u && u <= 90) || (97 <= u && u <= 122)) {
            return false;
        }
        i = i + 1;
    }
    true
}

impl KeybaseAddress {
    /// Parses a local-agent address.
    pub fn from_str(s: &str) -> (r: Result<KeybaseAddress, ErrorKind>)
        ensures
            match r {
                Ok(a) => spec_parse_keybase(s@) == Some(a@),
                Err(e) => spec_parse_keybase(s@) is None
                    && e matches ErrorKind::KeybaseAddressParsingError(_),
            },
    {
        let n = s.unicode_len();
        if !crate::strutil::str_starts_with(s, "keybase://") {
            proof {
                reveal_strlit("keybase://");
            }
            return Err(ErrorKind::KeybaseAddressParsingError(String::from_str(s)));
        }
        proof {
            reveal_strlit("keybase://");
        }
        let t = s.substring_char(10, n);
        let tn = t.unicode_len();
        let mut ci: usize = 0;
        let mut found = false;
        while ci < tn && !found
            invariant
                ci <= tn,
                tn == t@.len(),
                found ==> ci < tn && t@[ci as int] == ':',
                forall|k: int| 0 <= k < ci ==> t@[k] != ':',
            decreases tn - ci + (if found { 0int } else { 1int }),
        {
            if t.get_char(ci) == ':' {
                found = true;
            } else {
                ci = ci + 1;
            }
        }
        proof {
            if found {
                assert(t@ =~= t@.take(ci as int) + seq![':'] + t@.skip(ci as int + 1));
                lemma_first_idx_found(t@.take(ci as int), t@.skip(ci as int + 1), ':');
            } else {
                lemma_first_idx_absent(t@, ':');
            }
        }
        if !found {
            if !check_handle(t) {
                return Err(ErrorKind::KeybaseAddressParsingError(String::from_str(s)));
            }
            return Ok(KeybaseAddress { username: String::from_str(t), topic: None });
        }
        let user = t.substring_char(0, ci);
        let topic = t.substring_char(ci + 1, tn);
        proof {
            assert(user@ == t@.take(ci as int));
            assert(topic@ == t@.skip(ci as int + 1));
        }
        if !check_handle(user) || !check_handle(topic) {
            return Err(ErrorKind::KeybaseAddressParsingError(String::from_str(s)));
        }
        Ok(KeybaseAddress {
            username: String::from_str(user),
            topic: Some(String::from_str(topic)),
        })
    }

    /// The handle alone.
    pub fn stripped(&self) -> (r: String)
        ensures
            r@ == self@.username,
    {
        self.username.clone()
    }

    /// The full address text.
    pub fn canonical_form(&self) -> (r: String)
        ensures
            r@ == (match self@.topic {
                Some(t) => "keybase://"@ + self@.username + seq![':'] + t,
                None => "keybase://"@ + self@.username,
            }),
    {
        let mut out = String::from_str("keybase://");
        out.append(self.username.as_str());
        match &self.topic {
            Some(t) => {
                out.append(":");
                out.append(t.as_str());
                proof {
                    reveal_strlit(":");
                    assert(out@ =~= "keybase://"@ + self@.username + seq![':']
                        + self@.topic.unwrap());
                }
            },
            None => {},
        }
        out
    }
}

/// A direct listener address; kept whole.
#[derive(Clone, Debug)]
pub struct HttpsAddress {
    pub uri: String,
}

/// Whether the text is an acceptable direct listener address.
pub open spec fn spec_https_ok(s: Seq<char>) -> bool {
    ||| (s.len() > 8 && s.take(8) == "https://"@)
    ||| (s.len() > 7 && s.take(7) == "http://"@)
}

impl HttpsAddress {
    /// A well-formed direct address: a scheme and a nonempty rest.
    pub open spec fn wf(&self) -> bool {
        spec_https_ok(self.uri@)
    }

    /// Parses a direct listener address.
    pub fn from_str(s: &str) -> (r: Result<HttpsAddress, ErrorKind>)
        ensures
            match r {
                Ok(a) => spec_https_ok(s@) && a.uri@ == s@ && a.wf(),
                Err(e) => !spec_https_ok(s@)
                    && e matches ErrorKind::HttpsAddressParsingError(_),
            },
    {
        let n = s.unicode_len();
        let ok = (crate::strutil::str_starts_with(s, "https://") && n > 8)
            || (crate::strutil::str_starts_with(s, "http://") && n > 7);
        proof {
            reveal_strlit("https://");
            reveal_strlit("http://");
        }
        if !ok {
            return Err(ErrorKind::HttpsAddressParsingError(String::from_str(s)));
        }
        Ok(HttpsAddress { uri: String::from_str(s) })
    }

    /// The address text.
    pub fn stripped(&self) -> (r: String)
        ensures
            r@ == self.uri@,
    {
        self.uri.clone()
    }
}

/// An endpoint name of any supported transport.
#[derive(Clone, Debug)]
pub enum Address {
    MWCMQS(MWCMQSAddress),
    Keybase(KeybaseAddress),
    Https(HttpsAddress),
}

/// The scheme named before `://`, when the text has that shape.
pub open spec fn spec_scheme(s: Seq<char>) -> Option<Seq<char>> {
    let i = first_idx(s, ':');
    if i >= 0 && i + 2 < s.len() && s[i + 1] == '/' && s[i + 2] == '/' {
        Some(s.take(i))
    } else {
        None
    }
}

/// The scheme named before `://`, if the text has one.
fn scheme_of(s: &str) -> (r: Option<String>)
    ensures
        match r {
            Some(t) => spec_scheme(s@) == Some(t@),
            None => spec_scheme(s@) is None,
        },
{
    let n = s.unicode_len();
    let mut i: usize = 0;
    let mut found = false;
    while i < n && !found
        invariant
            i <= n,
            n == s@.len(),
            found ==> i < n && s@[i as int] == ':',
            forall|k: int| 0 <= k < i ==> s@[k] != ':',
        decreases n - i + (if found { 0int } else { 1int }),
    {
        if s.get_char(i) == ':' {
            found = true;
        } else {
            i = i + 1;
        }
    }
    proof {
        if found {
            assert(s@ =~= s@.take(i as int) + seq![':'] + s@.skip(i as int + 1));
            lemma_first_idx_found(s@.take(i as int), s@.skip(i as int + 1), ':');
        } else {
            lemma_first_idx_absent(s@, ':');
        }
    }
    if found && n - i > 2 && s.get_char(i + 1) == '/' && s.get_char(i + 2) == '/' {
        let sch = s.substring_char(0, i);
        Some(String::from_str(sch))
    } else {
        None
    }
}

impl Address {
    /// Which transport family this address names.
    pub fn address_type(&self) -> (r: AddressType)
        ensures
            r == (match *self {
                Address::MWCMQS(_) => AddressType::MWCMQS,
                Address::Keybase(_) => AddressType::Keybase,
                Address::Https(_) => AddressType::Https,
            }),
    {
        match self {
            Address::MWCMQS(_) => AddressType::MWCMQS,
            Address::Keybase(_) => AddressType::Keybase,
            Address::Https(_) => AddressType::Https,
        }
    }

    /// The identifier without transport decoration.
    pub fn stripped(&self) -> (r: String)
        ensures
            r@ == (match *self {
                Address::MWCMQS(a) => a@.key,
                Address::Keybase(a) => a@.username,
                Address::Https(a) => a.uri@,
            }),
    {
        match self {
            Address::MWCMQS(a) => a.stripped(),
            Address::Keybase(a) => a.stripped(),
            Address::Https(a) => a.stripped(),
        }
    }

    /// Parses an endpoint name, trying each known grammar in a fixed
    /// priority order: the local-agent scheme, then the direct schemes, then
    /// the relay grammar for everything unschemed or relay-schemed; any
    /// other scheme is rejected by name.
    #[verifier::spinoff_prover]
    #[verifier::rlimit(100)]
    pub fn parse(s: &str) -> (r: Result<Address, ErrorKind>)
        ensures
            match r {
                Ok(a) => match a {
                    Address::Keybase(k) => spec_parse_keybase(s@) == Some(k@),
                    Address::Https(h) => spec_https_ok(s@) && h.uri@ == s@,
                    Address::MWCMQS(m) => {
                        &&& (spec_scheme(s@) is None || spec_scheme(s@)
                            == Some("mwcmqs"@))
                        &&& spec_parse_mwcmqs(s@) == Some(m@)
                        &&& m.wf()
                    },
                },
                Err(e) => match e {
                    ErrorKind::UnknownAddressType(t) => {
                        &&& spec_scheme(s@) matches Some(sch) && t@ == sch
                        &&& spec_scheme(s@) != Some("mwcmqs"@)
                        &&& spec_scheme(s@) != Some("keybase"@)
                        &&& spec_scheme(s@) != Some("https"@)
                        &&& spec_scheme(s@) != Some("http"@)
                    },
                    ErrorKind::KeybaseAddressParsingError(_) => spec_parse_keybase(s@)
                        is None,
                    ErrorKind::HttpsAddressParsingError(_) => !spec_https_ok(s@),
                    _ => spec_parse_mwcmqs(s@) is None,
                },
            },
    {
        let scheme = scheme_of(s);
        match scheme {
            Some(sch) => {
                proof {
                    reveal_strlit("mwcmqs");
                    reveal_strlit("keybase");
                    reveal_strlit("https");
                    reveal_strlit("http");
                }
                if crate::strutil::str_eq(sch.as_str(), "keybase") {
                    return match KeybaseAddress::from_str(s) {
                        Ok(a) => Ok(Address::Keybase(a)),
                        Err(e) => Err(e),
                    };
                }
                if crate::strutil::str_eq(sch.as_str(), "https")
                    || crate::strutil::str_eq(sch.as_str(), "http") {
                    return match HttpsAddress::from_str(s) {
                        Ok(a) => Ok(Address::Https(a)),
                        Err(e) => Err(e),
                    };
                }
                if !crate::strutil::str_eq(sch.as_str(), "mwcmqs") {
                    return Err(ErrorKind::UnknownAddressType(sch));
                }
            },
            None => {},
        }
        match MWCMQSAddress::from_str(s) {
            Ok(a) => Ok(Address::MWCMQS(a)),
            Err(e) => Err(e),
        }
    }
}

} // verus!
