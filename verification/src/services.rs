//! Service registry: parses an embedded, nmap-style dataset of well-known
//! services (`name port/protocol frequency [comment...]`, one per line) and
//! answers lookups keyed by the exact (port, protocol) pair.

use vstd::prelude::*;
use vstd::string::*;

use crate::text::{join_spaces, spec_join_spaces, str_eq};

verus! {

/// Whitespace for the purposes of the dataset format: field separators
/// within a line.
pub open spec fn spec_is_ws(c: char) -> bool {
    c == ' ' || c == '\t' || c == '\r'
}

/// Whether `c` separates fields of a dataset line.
pub fn is_ws_char(c: char) -> (r: bool)
    ensures
        r == spec_is_ws(c),
{
    c == ' ' || c == '\t' || c == '\r'
}

/// Splits the rest of a line into whitespace-separated fields, `cur` being
/// the partial field read so far.
pub open spec fn tokens_go(s: Seq<char>, cur: Seq<char>) -> Seq<Seq<char>>
    decreases s.len(),
{
    if s.len() == 0 {
        if cur.len() == 0 {
            Seq::empty()
        } else {
            seq![cur]
        }
    } else if spec_is_ws(s[0]) {
        if cur.len() == 0 {
            tokens_go(s.drop_first(), Seq::empty())
        } else {
            seq![cur] + tokens_go(s.drop_first(), Seq::empty())
        }
    } else {
        tokens_go(s.drop_first(), cur.push(s[0]))
    }
}

/// The whitespace-separated fields of a line, in order.
pub open spec fn spec_tokens(s: Seq<char>) -> Seq<Seq<char>> {
    tokens_go(s, Seq::empty())
}

/// Splits a line into its whitespace-separated fields.
pub fn tokenize(s: &str) -> (r: Vec<String>)
    ensures
        r.deep_view() == spec_tokens(s@),
{
    let len = s.unicode_len();
    let mut toks: Vec<String> = Vec::new();
    let mut i: usize = 0;
    let mut start: usize = 0;
    let mut in_tok: bool = false;
    proof {
        assert(s@.skip(0) =~= s@);
        assert(toks.deep_view() =~= Seq::<Seq<char>>::empty());
        assert(toks.deep_view() + tokens_go(s@, Seq::empty()) =~= tokens_go(s@, Seq::empty()));
    }
    while i < len
        invariant
            i <= len,
            len == s@.len(),
            in_tok ==> start < i,
            !in_tok ==> spec_tokens(s@) == toks.deep_view() + tokens_go(
                s@.skip(i as int),
                Seq::empty(),
            ),
            in_tok ==> spec_tokens(s@) == toks.deep_view() + tokens_go(
                s@.skip(i as int),
                s@.subrange(start as int, i as int),
            ),
        decreases len - i,
    {
        let c = s.get_char(i);
        proof {
            assert(s@.skip(i as int).drop_first() =~= s@.skip(i as int + 1));
            assert(s@.skip(i as int)[0] == s@[i as int]);
        }
        if is_ws_char(c) {
            if in_tok {
                let tok = s.substring_char(start, i).to_owned();
                let ghost pre = toks.deep_view();
                toks.push(tok);
                proof {
                    assert(toks.deep_view() =~= pre.push(s@.subrange(start as int, i as int)));
                    assert(pre.push(s@.subrange(start as int, i as int)) + tokens_go(
                        s@.skip(i as int + 1),
                        Seq::empty(),
                    ) =~= pre + (seq![s@.subrange(start as int, i as int)] + tokens_go(
                        s@.skip(i as int + 1),
                        Seq::empty(),
                    )));
                }
                in_tok = false;
            }
        } else {
            if !in_tok {
                start = i;
                in_tok = true;
                proof {
                    assert(Seq::<char>::empty().push(s@[i as int]) =~= s@.subrange(
                        start as int,
                        i as int + 1,
                    ));
                }
            } else {
                proof {
                    assert(s@.subrange(start as int, i as int).push(s@[i as int]) =~= s@.subrange(
                        start as int,
                        i as int + 1,
                    ));
                }
            }
        }
        i += 1;
    }
    if in_tok {
        let tok = s.substring_char(start, len).to_owned();
        let ghost pre = toks.deep_view();
        toks.push(tok);
        proof {
            assert(s@.skip(len as int) =~= Seq::<char>::empty());
            assert(toks.deep_view() =~= pre.push(s@.subrange(start as int, len as int)));
            assert(pre.push(s@.subrange(start as int, len as int)) =~= pre + seq![
                s@.subrange(start as int, len as int),
            ]);
        }
    } else {
        proof {
            assert(s@.skip(len as int) =~= Seq::<char>::empty());
            assert(toks.deep_view() + Seq::<Seq<char>>::empty() =~= toks.deep_view());
        }
    }
    toks
}

/// Splits text into lines at `'\n'`, `cur` being the partial line read so
/// far. A trailing newline does not open a final empty line.
pub open spec fn lines_go(s: Seq<char>, cur: Seq<char>) -> Seq<Seq<char>>
    decreases s.len(),
{
    if s.len() == 0 {
        if cur.len() == 0 {
            Seq::empty()
        } else {
            seq![cur]
        }
    } else if s[0] == '\n' {
        seq![cur] + lines_go(s.drop_first(), Seq::empty())
    } else {
        lines_go(s.drop_first(), cur.push(s[0]))
    }
}

/// The lines of a text, split at `'\n'`.
pub open spec fn spec_lines(s: Seq<char>) -> Seq<Seq<char>> {
    lines_go(s, Seq::empty())
}

/// Splits text into lines at `'\n'`.
pub fn split_lines(s: &str) -> (r: Vec<String>)
    ensures
        r.deep_view() == spec_lines(s@),
{
    let len = s.unicode_len();
    let mut out: Vec<String> = Vec::new();
    let mut i: usize = 0;
    let mut start: usize = 0;
    proof {
        assert(s@.skip(0) =~= s@);
        assert(s@.subrange(0, 0) =~= Seq::<char>::empty());
        assert(out.deep_view() =~= Seq::<Seq<char>>::empty());
        assert(out.deep_view() + lines_go(s@, Seq::empty()) =~= lines_go(s@, Seq::empty()));
    }
    while i < len
        invariant
            i <= len,
            len == s@.len(),
            start <= i,
            spec_lines(s@) == out.deep_view() + lines_go(
                s@.skip(i as int),
                s@.subrange(start as int, i as int),
            ),
        decreases len - i,
    {
        let c = s.get_char(i);
        proof {
            assert(s@.skip(i as int).drop_first() =~= s@.skip(i as int + 1));
            assert(s@.skip(i as int)[0] == s@[i as int]);
        }
        if c == '\n' {
            let line = s.substring_char(start, i).to_owned();
            let ghost pre = out.deep_view();
            out.push(line);
            proof {
                assert(out.deep_view() =~= pre.push(s@.subrange(start as int, i as int)));
                assert(pre.push(s@.subrange(start as int, i as int)) + lines_go(
                    s@.skip(i as int + 1),
                    Seq::empty(),
                ) =~= pre + (seq![s@.subrange(start as int, i as int)] + lines_go(
                    s@.skip(i as int + 1),
                    Seq::empty(),
                )));
                assert(s@.subrange(i as int + 1, i as int + 1) =~= Seq::<char>::empty());
            }
            start = i + 1;
        } else {
            proof {
                assert(s@.subrange(start as int, i as int).push(s@[i as int]) =~= s@.subrange(
                    start as int,
                    i as int + 1,
                ));
            }
        }
        i += 1;
    }
    proof {
        assert(s@.skip(len as int) =~= Seq::<char>::empty());
    }
    if start < len {
        let line = s.substring_char(start, len).to_owned();
        let ghost pre = out.deep_view();
        out.push(line);
        proof {
            assert(out.deep_view() =~= pre.push(s@.subrange(start as int, len as int)));
            assert(pre.push(s@.subrange(start as int, len as int)) =~= pre + seq![
                s@.subrange(start as int, len as int),
            ]);
        }
    } else {
        proof {
            assert(s@.subrange(start as int, len as int).len() == 0);
            assert(out.deep_view() + Seq::<Seq<char>>::empty() =~= out.deep_view());
        }
    }
    out
}

/// Whether `c` is a decimal digit.
pub open spec fn spec_is_digit(c: char) -> bool {
    c == '0' || c == '1' || c == '2' || c == '3' || c == '4' || c == '5' || c == '6' || c == '7'
        || c == '8' || c == '9'
}

/// The value of a decimal digit character.
pub open spec fn spec_digit_val(c: char) -> nat {
    if c == '0' {
        0
    } else if c == '1' {
        1
    } else if c == '2' {
        2
    } else if c == '3' {
        3
    } else if c == '4' {
        4
    } else if c == '5' {
        5
    } else if c == '6' {
        6
    } else if c == '7' {
        7
    } else if c == '8' {
        8
    } else {
        9
    }
}

/// The value of a digit string read in base ten.
pub open spec fn spec_digits_val(s: Seq<char>) -> nat
    decreases s.len(),
{
    if s.len() == 0 {
        0
    } else {
        spec_digits_val(s.drop_last()) * 10 + spec_digit_val(s.last())
    }
}

/// Whether every character of `s` is a decimal digit.
pub open spec fn spec_all_digits(s: Seq<char>) -> bool {
    forall|j: int| 0 <= j < s.len() ==> spec_is_digit(s[j])
}

/// The digits of a number field, after an optional leading `+`.
pub open spec fn spec_u16_digits(s: Seq<char>) -> Seq<char> {
    if s.len() > 0 && s[0] == '+' {
        s.drop_first()
    } else {
        s
    }
}

/// How a port field parses as an unsigned 16-bit number: an optional
/// leading `+`, then at least one digit, and a value of at most 65535.
pub open spec fn spec_parse_u16(s: Seq<char>) -> Option<u16> {
    let ds = spec_u16_digits(s);
    if ds.len() == 0 || !spec_all_digits(ds) {
        None
    } else if spec_digits_val(ds) > 65535 {
        None
    } else {
        Some(spec_digits_val(ds) as u16)
    }
}

/// The digit value of `c`, or `None` for any other character.
fn digit_val(c: char) -> (r: Option<u8>)
    ensures
        match r {
            Some(d) => spec_is_digit(c) && d as nat == spec_digit_val(c) && d < 10,
            None => !spec_is_digit(c),
        },
{
    match c {
        '0' => Some(0),
        '1' => Some(1),
        '2' => Some(2),
        '3' => Some(3),
        '4' => Some(4),
        '5' => Some(5),
        '6' => Some(6),
        '7' => Some(7),
        '8' => Some(8),
        '9' => Some(9),
        _ => None,
    }
}

/// Parses a port field as an unsigned 16-bit number.
pub fn parse_u16(t: &str) -> (r: Option<u16>)
    ensures
        r == spec_parse_u16(t@),
{
    let len = t.unicode_len();
    let start: usize = if len > 0 && t.get_char(0) == '+' {
        1
    } else {
        0
    };
    let ghost ds: Seq<char> = spec_u16_digits(t@);
    proof {
        assert(ds =~= t@.skip(start as int));
        assert(ds.len() == len - start);
    }
    if len == start {
        proof {
            assert(ds.len() == 0);
        }
        return None;
    }
    let mut i: usize = start;
    let mut v: u32 = 0;
    while i < len
        invariant
            start <= i <= len,
            len == t@.len(),
            ds == spec_u16_digits(t@),
            ds == t@.skip(start as int),
            ds.len() == len - start,
            forall|j: int| 0 <= j < i - start ==> spec_is_digit(ds[j]),
            v as nat == if spec_digits_val(ds.take(i - start)) > 65535 {
                65536
            } else {
                spec_digits_val(ds.take(i - start))
            },
        decreases len - i,
    {
        let c = t.get_char(i);
        proof {
            assert(ds[i - start] == t@[i as int]);
        }
        match digit_val(c) {
            None => {
                proof {
                    assert(!spec_all_digits(ds)) by {
                        assert(0 <= i - start < ds.len());
                        assert(!spec_is_digit(ds[i - start]));
                    }
                }
                return None;
            },
            Some(d) => {
                proof {
                    assert(ds.take(i - start + 1).drop_last() =~= ds.take(i - start));
                    assert(ds.take(i - start + 1).last() == ds[i - start]);
                }
                if v > 65535 {
                    proof {
                        assert(spec_digits_val(ds.take(i - start)) * 10 + spec_digit_val(
                            ds[i - start],
                        ) > 65535);
                    }
                } else {
                    v = v * 10 + (d as u32);
                    if v > 65535 {
                        v = 65536;
                    }
                }
            },
        }
        i += 1;
    }
    proof {
        assert(ds.take(len - start) =~= ds);
    }
    if v > 65535 {
        None
    } else {
        proof {
            assert(v as nat == spec_digits_val(ds));
        }
        Some(v as u16)
    }
}

/// The index of the first `/` in `t`, or the length if there is none.
pub open spec fn spec_slash_pos(t: Seq<char>) -> int
    decreases t.len(),
{
    if t.len() == 0 {
        0
    } else if t[0] == '/' {
        0
    } else {
        1 + spec_slash_pos(t.drop_first())
    }
}

/// How a `port/protocol` field splits at its first `/`: the part before
/// and the part after, or nothing when no `/` occurs.
pub open spec fn spec_split_slash(t: Seq<char>) -> Option<(Seq<char>, Seq<char>)> {
    let k = spec_slash_pos(t);
    if k == t.len() {
        None
    } else {
        Some((t.subrange(0, k), t.subrange(k + 1, t.len() as int)))
    }
}

/// The first-slash position lies in bounds, points at a `/` when it is not
/// the length, and nothing before it is a `/`.
proof fn lemma_slash_pos_props(t: Seq<char>)
    ensures
        0 <= spec_slash_pos(t) <= t.len(),
        spec_slash_pos(t) < t.len() ==> t[spec_slash_pos(t)] == '/',
        forall|j: int| 0 <= j < spec_slash_pos(t) ==> t[j] != '/',
    decreases t.len(),
{
    if t.len() == 0 {
    } else if t[0] == '/' {
    } else {
        lemma_slash_pos_props(t.drop_first());
        assert forall|j: int| 0 <= j < spec_slash_pos(t) implies t[j] != '/' by {
            if j > 0 {
                assert(t.drop_first()[j - 1] != '/');
            }
        }
    }
}

/// Splits a field at its first `/`.
pub fn split_slash(t: &str) -> (r: Option<(String, String)>)
    ensures
        match r {
            Some(pair) => spec_split_slash(t@) == Some((pair.0@, pair.1@)),
            None => spec_split_slash(t@) is None,
        },
{
    proof {
        lemma_slash_pos_props(t@);
    }
    let len = t.unicode_len();
    let mut i: usize = 0;
    while i < len
        invariant
            0 <= i <= len,
            len == t@.len(),
            forall|j: int| 0 <= j < i ==> t@[j] != '/',
        decreases len - i,
    {
        let c = t.get_char(i);
        if c == '/' {
            proof {
                lemma_slash_pos_props(t@);
                assert(spec_slash_pos(t@) == i as int) by {
                    lemma_slash_pos_props(t@);
                    if spec_slash_pos(t@) < i {
                        assert(t@[spec_slash_pos(t@)] == '/');
                    }
                    if spec_slash_pos(t@) > i {
                        assert(t@[i as int] != '/');
                    }
                }
            }
            let before = t.substring_char(0, i).to_owned();
            let after = t.substring_char(i + 1, len).to_owned();
            return Some((before, after));
        }
        i += 1;
    }
    proof {
        assert(spec_slash_pos(t@) == t@.len()) by {
            lemma_slash_pos_props(t@);
            if spec_slash_pos(t@) < t@.len() {
                assert(t@[spec_slash_pos(t@)] == '/');
            }
        }
    }
    None
}

/// The exact (port, protocol) pair a service entry is keyed by.
#[derive(Clone, Debug, PartialEq)]
pub struct PortKey {
    pub port: u16,
    pub protocol: String,
}

impl View for PortKey {
    type V = (u16, Seq<char>);

    open spec fn view(&self) -> (u16, Seq<char>) {
        (self.port, self.protocol@)
    }
}

/// Port service information: one parsed dataset entry.
#[derive(Clone, Debug, PartialEq)]
pub struct PortService {
    pub name: String,
    pub port: u16,
    pub protocol: String,
    pub comment: Option<String>,
}

/// Ghost image of a [`PortService`].
#[verifier::ext_equal]
pub struct ServiceView {
    pub name: Seq<char>,
    pub port: u16,
    pub protocol: Seq<char>,
    pub comment: Option<Seq<char>>,
}

impl View for PortService {
    type V = ServiceView;

    open spec fn view(&self) -> ServiceView {
        ServiceView {
            name: self.name@,
            port: self.port,
            protocol: self.protocol@,
            comment: crate::records::opt_view(self.comment),
        }
    }
}

impl DeepView for PortService {
    type V = ServiceView;

    open spec fn deep_view(&self) -> ServiceView {
        self.view()
    }
}

/// How one dataset line parses: at least three whitespace-separated fields
/// (name, `port/protocol`, frequency), the remaining fields joined as the
/// free-text comment. A line that does not fit yields nothing.
pub open spec fn spec_parse_line(line: Seq<char>) -> Option<ServiceView> {
    let toks = spec_tokens(line);
    if toks.len() < 3 {
        None
    } else {
        match spec_split_slash(toks[1]) {
            None => None,
            Some(pair) => match spec_parse_u16(pair.0) {
                None => None,
                Some(port) => Some(
                    ServiceView {
                        name: toks[0],
                        port: port,
                        protocol: pair.1,
                        comment: if toks.len() == 3 {
                            None
                        } else {
                            Some(spec_join_spaces(toks.skip(3)))
                        },
                    },
                ),
            },
        }
    }
}

/// Clones the elements of `v` from position `k` on.
fn tail_from(v: &Vec<String>, k: usize) -> (r: Vec<String>)
    requires
        k <= v@.len(),
    ensures
        r.deep_view() == v.deep_view().skip(k as int),
{
    let mut out: Vec<String> = Vec::new();
    let mut i: usize = k;
    proof {
        assert(out.deep_view() =~= v.deep_view().subrange(k as int, k as int));
    }
    while i < v.len()
        invariant
            k <= i <= v@.len(),
            out.deep_view() == v.deep_view().subrange(k as int, i as int),
        decreases v@.len() - i,
    {
        let ghost pre = out.deep_view();
        out.push(v[i].clone());
        proof {
            assert(out.deep_view() =~= pre.push(v@[i as int]@));
            assert(pre.push(v@[i as int]@) =~= v.deep_view().subrange(k as int, i as int + 1));
        }
        i += 1;
    }
    proof {
        assert(v.deep_view().subrange(k as int, v@.len() as int) =~= v.deep_view().skip(k as int));
    }
    out
}

impl PortService {
    /// Parses one dataset line of the shape
    /// `name port/protocol frequency [comment...]`.
    pub fn parse_line(line: &str) -> (r: Option<PortService>)
        ensures
            match r {
                Some(p) => spec_parse_line(line@) == Some(p@),
                None => spec_parse_line(line@) is None,
            },
    {
        let toks = tokenize(line);
        let ghost tv = spec_tokens(line@);
        if toks.len() < 3 {
            return None;
        }
        let pair = match split_slash(toks[1].as_str()) {
            None => {
                return None;
            },
            Some(pair) => pair,
        };
        let port = match parse_u16(pair.0.as_str()) {
            None => {
                return None;
            },
            Some(port) => port,
        };
        let comment = if toks.len() == 3 {
            None
        } else {
            let rest = tail_from(&toks, 3);
            Some(join_spaces(&rest))
        };
        let p = PortService { name: toks[0].clone(), port, protocol: pair.1, comment };
        proof {
            assert(spec_parse_line(line@) == Some(p@)) by {
                assert(tv[1] == toks@[1]@);
                assert(spec_parse_line(line@) matches Some(s) && s =~= p@);
            }
        }
        Some(p)
    }

    /// The (port, protocol) pair this entry is keyed by.
    pub fn key(&self) -> (k: PortKey)
        ensures
            k@ == (self.port, self.protocol@),
    {
        PortKey { port: self.port, protocol: self.protocol.clone() }
    }
}

/// Whether a registry entry is keyed by the given (port, protocol) pair.
pub open spec fn service_key_matches(s: ServiceView, port: u16, protocol: Seq<char>) -> bool {
    s.port == port && s.protocol == protocol
}

/// The first registry entry keyed by the given pair, if any.
pub open spec fn spec_find_service(reg: Seq<ServiceView>, port: u16, protocol: Seq<char>) -> Option<
    ServiceView,
>
    decreases reg.len(),
{
    if reg.len() == 0 {
        None
    } else if service_key_matches(reg[0], port, protocol) {
        Some(reg[0])
    } else {
        spec_find_service(reg.drop_first(), port, protocol)
    }
}

/// Inserting an entry replaces the first entry with the same key, or
/// appends when the key is new: the later dataset line wins.
pub open spec fn spec_reg_insert(reg: Seq<ServiceView>, s: ServiceView) -> Seq<ServiceView>
    decreases reg.len(),
{
    if reg.len() == 0 {
        seq![s]
    } else if service_key_matches(reg[0], s.port, s.protocol) {
        seq![s] + reg.drop_first()
    } else {
        seq![reg[0]] + spec_reg_insert(reg.drop_first(), s)
    }
}

proof fn lemma_reg_insert_at(reg: Seq<ServiceView>, s: ServiceView, k: int)
    requires
        0 <= k < reg.len(),
        service_key_matches(reg[k], s.port, s.protocol),
        forall|j: int| 0 <= j < k ==> !service_key_matches(reg[j], s.port, s.protocol),
    ensures
        spec_reg_insert(reg, s) == reg.update(k, s),
    decreases k,
{
    if k == 0 {
        assert(seq![s] + reg.drop_first() =~= reg.update(0, s));
    } else {
        assert(!service_key_matches(reg[0], s.port, s.protocol));
        assert forall|j: int| 0 <= j < k - 1 implies !service_key_matches(
            reg.drop_first()[j],
            s.port,
            s.protocol,
        ) by {
            assert(reg.drop_first()[j] == reg[j + 1]);
        }
        lemma_reg_insert_at(reg.drop_first(), s, k - 1);
        assert(seq![reg[0]] + reg.drop_first().update(k - 1, s) =~= reg.update(k, s));
    }
}

proof fn lemma_reg_insert_push(reg: Seq<ServiceView>, s: ServiceView)
    requires
        forall|j: int| 0 <= j < reg.len() ==> !service_key_matches(reg[j], s.port, s.protocol),
    ensures
        spec_reg_insert(reg, s) == reg.push(s),
    decreases reg.len(),
{
    if reg.len() == 0 {
        assert(seq![s] =~= reg.push(s));
    } else {
        assert forall|j: int| 0 <= j < reg.drop_first().len() implies !service_key_matches(
            reg.drop_first()[j],
            s.port,
            s.protocol,
        ) by {
            assert(reg.drop_first()[j] == reg[j + 1]);
        }
        lemma_reg_insert_push(reg.drop_first(), s);
        assert(seq![reg[0]] + reg.drop_first().push(s) =~= reg.push(s));
    }
}

/// The registry: parsed service entries with mutually distinct
/// (port, protocol) keys, in first-appearance order of the dataset.
pub struct ServiceRegistry {
    services: Vec<PortService>,
}

impl View for ServiceRegistry {
    type V = Seq<ServiceView>;

    closed spec fn view(&self) -> Seq<ServiceView> {
        self.services.deep_view()
    }
}

/// The position of the first entry keyed by the given pair.
fn find_service_index(services: &Vec<PortService>, port: u16, protocol: &str) -> (r: Option<usize>)
    ensures
        match r {
            Some(k) => k < services.deep_view().len() && service_key_matches(
                services.deep_view()[k as int],
                port,
                protocol@,
            ) && forall|j: int|
                0 <= j < k ==> !service_key_matches(services.deep_view()[j], port, protocol@),
            None => forall|j: int|
                0 <= j < services.deep_view().len() ==> !service_key_matches(
                    services.deep_view()[j],
                    port,
                    protocol@,
                ),
        },
{
    let ghost dv = services.deep_view();
    let mut j: usize = 0;
    while j < services.len()
        invariant
            0 <= j <= services@.len(),
            dv == services.deep_view(),
            dv.len() == services@.len(),
            forall|j2: int| 0 <= j2 < j ==> !service_key_matches(dv[j2], port, protocol@),
        decreases services@.len() - j,
    {
        let same_port = services[j].port == port;
        let same_proto = str_eq(services[j].protocol.as_str(), protocol);
        if same_port && same_proto {
            return Some(j);
        }
        proof {
            assert(!service_key_matches(dv[j as int], port, protocol@));
        }
        j += 1;
    }
    None
}

/// Inserts one parsed entry, replacing the first entry with the same key.
fn reg_insert_exec(services: &mut Vec<PortService>, s: PortService)
    ensures
        final(services).deep_view() == spec_reg_insert(old(services).deep_view(), s@),
{
    let ghost dv = services.deep_view();
    let ghost sv = s@;
    match find_service_index(services, s.port, s.protocol.as_str()) {
        Some(k) => {
            proof {
                lemma_reg_insert_at(dv, sv, k as int);
            }
            services[k] = s;
            proof {
                assert(services.deep_view() =~= dv.update(k as int, sv));
            }
        },
        None => {
            proof {
                lemma_reg_insert_push(dv, sv);
            }
            services.push(s);
            proof {
                assert(services.deep_view() =~= dv.push(sv));
            }
        },
    }
}

/// Whether a dataset line takes part in the registry: it has some field
/// and does not open with `#`.
pub open spec fn spec_line_selected(l: Seq<char>) -> bool {
    spec_tokens(l).len() > 0 && l.len() > 0 && l[0] != '#'
}

/// The registry contents built from the lines of a dataset text: parsed
/// entries of the selected lines, inserted in order.
pub open spec fn build_go(lines: Seq<Seq<char>>, reg: Seq<ServiceView>) -> Seq<ServiceView>
    decreases lines.len(),
{
    if lines.len() == 0 {
        reg
    } else {
        let reg2 = if spec_line_selected(lines[0]) {
            match spec_parse_line(lines[0]) {
                Some(s) => spec_reg_insert(reg, s),
                None => reg,
            }
        } else {
            reg
        };
        build_go(lines.drop_first(), reg2)
    }
}

/// The registry contents a dataset text builds.
pub open spec fn spec_build_registry(text: Seq<char>) -> Seq<ServiceView> {
    build_go(spec_lines(text), Seq::empty())
}

/// Builds a registry from a dataset text: blank lines and lines starting
/// with `#` are ignored, malformed lines are skipped, and of two lines
/// with the same (port, protocol) key the later wins.
pub fn build_registry(text: &str) -> (r: ServiceRegistry)
    ensures
        r@ == spec_build_registry(text@),
        registry_wf(r@),
{
    proof {
        lemma_build_registry_wf(text@);
    }
    let lines = split_lines(text);
    let ghost lv = spec_lines(text@);
    let mut services: Vec<PortService> = Vec::new();
    let mut i: usize = 0;
    proof {
        assert(lv.skip(0) =~= lv);
        assert(services.deep_view() =~= Seq::<ServiceView>::empty());
    }
    while i < lines.len()
        invariant
            0 <= i <= lines@.len(),
            lv == spec_lines(text@),
            lines.deep_view() == lv,
            lv.len() == lines@.len(),
            spec_build_registry(text@) == build_go(lv.skip(i as int), services.deep_view()),
        decreases lines@.len() - i,
    {
        proof {
            assert(lv.skip(i as int)[0] == lv[i as int]);
            assert(lv.skip(i as int).drop_first() =~= lv.skip(i as int + 1));
            assert(lines@[i as int]@ == lv[i as int]);
        }
        let line = &lines[i];
        let toks = tokenize(line.as_str());
        let mut selected = toks.len() > 0;
        if selected {
            proof {
                if line@.len() == 0 {
                    assert(spec_tokens(line@).len() == 0);
                }
            }
            selected = line.as_str().get_char(0) != '#';
        }
        if selected {
            match PortService::parse_line(line.as_str()) {
                Some(svc) => {
                    reg_insert_exec(&mut services, svc);
                },
                None => {},
            }
        }
        i += 1;
    }
    proof {
        assert(lv.skip(lv.len() as int) =~= Seq::<Seq<char>>::empty());
    }
    ServiceRegistry { services }
}

/// Looks up the service entry keyed by the exact (port, protocol) pair.
/// A pure read: no I/O, and the registry is never changed by a lookup.
pub fn get_service<'a>(reg: &'a ServiceRegistry, port: u16, protocol: &str) -> (r: Option<
    &'a PortService,
>)
    ensures
        match r {
            Some(s) => spec_find_service(reg@, port, protocol@) == Some(s@),
            None => spec_find_service(reg@, port, protocol@) is None,
        },
{
    match find_service_index(&reg.services, port, protocol) {
        Some(k) => {
            proof {
                lemma_find_service_at(reg@, port, protocol@, k as int);
            }
            Some(&reg.services[k])
        },
        None => {
            proof {
                lemma_find_service_none(reg@, port, protocol@);
            }
            None
        },
    }
}

proof fn lemma_find_service_at(reg: Seq<ServiceView>, port: u16, protocol: Seq<char>, k: int)
    requires
        0 <= k < reg.len(),
        service_key_matches(reg[k], port, protocol),
        forall|j: int| 0 <= j < k ==> !service_key_matches(reg[j], port, protocol),
    ensures
        spec_find_service(reg, port, protocol) == Some(reg[k]),
    decreases k,
{
    if k == 0 {
    } else {
        assert forall|j: int| 0 <= j < k - 1 implies !service_key_matches(
            reg.drop_first()[j],
            port,
            protocol,
        ) by {
            assert(reg.drop_first()[j] == reg[j + 1]);
        }
        lemma_find_service_at(reg.drop_first(), port, protocol, k - 1);
    }
}

proof fn lemma_find_service_none(reg: Seq<ServiceView>, port: u16, protocol: Seq<char>)
    requires
        forall|j: int| 0 <= j < reg.len() ==> !service_key_matches(reg[j], port, protocol),
    ensures
        spec_find_service(reg, port, protocol) is None,
    decreases reg.len(),
{
    if reg.len() == 0 {
    } else {
        assert forall|j: int| 0 <= j < reg.drop_first().len() implies !service_key_matches(
            reg.drop_first()[j],
            port,
            protocol,
        ) by {
            assert(reg.drop_first()[j] == reg[j + 1]);
        }
        lemma_find_service_none(reg.drop_first(), port, protocol);
    }
}

/// The embedded service dataset: well-known assignments in the nmap
/// services format, `name port/protocol frequency [comment...]`.
pub const SERVICES_DATA: &'static str = "ftp-data 20/tcp 0.1 File Transfer Protocol data\nftp 21/tcp 0.2 File Transfer Protocol control\nssh 22/tcp 0.6 Secure Shell\ntelnet 23/tcp 0.2\nsmtp 25/tcp 0.5 Simple Mail Transfer\ndomain 53/tcp 0.3 Domain Name Server\ndomain 53/udp 0.6 Domain Name Server\nhttp 80/tcp 0.9 World Wide Web HTTP\nkerberos 88/tcp 0.1 Kerberos v5\npop3 110/tcp 0.3 Post Office Protocol v3\nsunrpc 111/tcp 0.2 Portmapper\nntp 123/udp 0.5 Network Time Protocol\nnetbios-ssn 139/tcp 0.2 NetBIOS Session Service\nimap 143/tcp 0.3 Interim Mail Access Protocol\nldap 389/tcp 0.2 Lightweight Directory Access Protocol\nhttps 443/tcp 0.8\nmicrosoft-ds 445/tcp 0.3 SMB over TCP\nsmtps 465/tcp 0.2 SMTP over TLS\nsubmission 587/tcp 0.2 Message Submission\nldaps 636/tcp 0.1 LDAP over TLS\nrsync 873/tcp 0.1 rsync daemon\nimaps 993/tcp 0.3 IMAP over TLS\npop3s 995/tcp 0.2 POP3 over TLS\nmssql-s 1433/tcp 0.2 Microsoft SQL Server\nnfs 2049/tcp 0.1 Network File System\nmysql 3306/tcp 0.4\nrdp 3389/tcp 0.3 Remote Desktop Protocol\npostgresql 5432/tcp 0.3 PostgreSQL database server\namqp 5672/tcp 0.1 Advanced Message Queuing\nredis 6379/tcp 0.2\nirc 6667/tcp 0.1 Internet Relay Chat\nhttp-alt 8000/tcp 0.2\nhttp-proxy 8080/tcp 0.4 Common HTTP proxy\nhttps-alt 8443/tcp 0.2\nmemcache 11211/tcp 0.1 Memory object caching\nmongodb 27017/tcp 0.2 MongoDB database server\n";

/// Builds the registry from the embedded dataset. A malformed dataset
/// only yields a smaller table; construction itself never fails.
pub fn load_nmap_services() -> (r: ServiceRegistry)
    ensures
        r@ == spec_build_registry(SERVICES_DATA@),
        registry_wf(r@),
{
    build_registry(SERVICES_DATA)
}

/// All entries of the registry, in order.
pub fn all_services<'a>(reg: &'a ServiceRegistry) -> (r: &'a Vec<PortService>)
    ensures
        r.deep_view() == reg@,
{
    &reg.services
}

/// A registry is well formed when no two entries share a (port, protocol)
/// key: each key is queryable to exactly one entry.
pub open spec fn registry_wf(reg: Seq<ServiceView>) -> bool {
    forall|i: int, j: int|
        0 <= i < j < reg.len() ==> !(reg[i].port == reg[j].port && reg[i].protocol
            == reg[j].protocol)
}

/// Every entry of an insertion result is the inserted entry or one of the
/// entries already there.
proof fn lemma_reg_insert_entries(reg: Seq<ServiceView>, s: ServiceView)
    ensures
        forall|t: int|
            #![trigger spec_reg_insert(reg, s)[t]]
            0 <= t < spec_reg_insert(reg, s).len() ==> (spec_reg_insert(reg, s)[t] == s
                || reg.contains(spec_reg_insert(reg, s)[t])),
    decreases reg.len(),
{
    let out = spec_reg_insert(reg, s);
    if reg.len() == 0 {
    } else if service_key_matches(reg[0], s.port, s.protocol) {
        assert forall|t: int| 0 <= t < out.len() implies (out[t] == s || reg.contains(out[t])) by {
            if t > 0 {
                assert(out[t] == reg[t]);
            }
        }
    } else {
        lemma_reg_insert_entries(reg.drop_first(), s);
        assert forall|t: int| 0 <= t < out.len() implies (out[t] == s || reg.contains(out[t])) by {
            if t == 0 {
                assert(reg[0] == out[0]);
            } else {
                let inner = spec_reg_insert(reg.drop_first(), s);
                assert(out[t] == inner[t - 1]);
                if inner[t - 1] != s {
                    let w = choose|w: int|
                        0 <= w < reg.drop_first().len() && reg.drop_first()[w] == inner[t - 1];
                    assert(reg[w + 1] == inner[t - 1]);
                }
            }
        }
    }
}

/// Insertion keeps a registry well formed.
proof fn lemma_reg_insert_wf(reg: Seq<ServiceView>, s: ServiceView)
    requires
        registry_wf(reg),
    ensures
        registry_wf(spec_reg_insert(reg, s)),
    decreases reg.len(),
{
    let out = spec_reg_insert(reg, s);
    if reg.len() == 0 {
    } else if service_key_matches(reg[0], s.port, s.protocol) {
        assert forall|i: int, j: int| 0 <= i < j < out.len() implies !(out[i].port == out[j].port
            && out[i].protocol == out[j].protocol) by {
            if i == 0 {
                assert(out[j] == reg[j]);
            } else {
                assert(out[i] == reg[i] && out[j] == reg[j]);
            }
        }
    } else {
        assert forall|i: int, j: int|
            0 <= i < j < reg.drop_first().len() implies !(reg.drop_first()[i].port
            == reg.drop_first()[j].port && reg.drop_first()[i].protocol
            == reg.drop_first()[j].protocol) by {
            assert(reg.drop_first()[i] == reg[i + 1]);
            assert(reg.drop_first()[j] == reg[j + 1]);
        }
        lemma_reg_insert_wf(reg.drop_first(), s);
        lemma_reg_insert_entries(reg.drop_first(), s);
        let inner = spec_reg_insert(reg.drop_first(), s);
        assert forall|i: int, j: int| 0 <= i < j < out.len() implies !(out[i].port == out[j].port
            && out[i].protocol == out[j].protocol) by {
            if i == 0 {
                assert(out[j] == inner[j - 1]);
                if inner[j - 1] == s {
                } else {
                    let w = choose|w: int|
                        0 <= w < reg.drop_first().len() && reg.drop_first()[w] == inner[j - 1];
                    assert(reg[w + 1] == inner[j - 1]);
                }
            } else {
                assert(out[i] == inner[i - 1] && out[j] == inner[j - 1]);
            }
        }
    }
}

/// After inserting an entry, a lookup by its own key yields exactly it.
proof fn lemma_reg_insert_finds(reg: Seq<ServiceView>, s: ServiceView)
    ensures
        spec_find_service(spec_reg_insert(reg, s), s.port, s.protocol) == Some(s),
    decreases reg.len(),
{
    if reg.len() == 0 {
    } else if service_key_matches(reg[0], s.port, s.protocol) {
    } else {
        lemma_reg_insert_finds(reg.drop_first(), s);
        let out = spec_reg_insert(reg, s);
        assert(out[0] == reg[0]);
        assert(out.drop_first() =~= spec_reg_insert(reg.drop_first(), s));
    }
}

/// Insertion never makes a present key unfindable.
proof fn lemma_reg_insert_keeps(reg: Seq<ServiceView>, s: ServiceView, port: u16, proto: Seq<char>)
    requires
        spec_find_service(reg, port, proto) is Some,
    ensures
        spec_find_service(spec_reg_insert(reg, s), port, proto) is Some,
    decreases reg.len(),
{
    if reg.len() == 0 {
    } else {
        let out = spec_reg_insert(reg, s);
        if service_key_matches(reg[0], s.port, s.protocol) {
            assert(out[0] == s);
            if service_key_matches(reg[0], port, proto) {
                assert(service_key_matches(s, port, proto));
            } else {
                assert(out.drop_first() =~= reg.drop_first());
                if !service_key_matches(out[0], port, proto) {
                    assert(spec_find_service(out, port, proto) == spec_find_service(
                        reg.drop_first(),
                        port,
                        proto,
                    ));
                }
            }
        } else {
            assert(out[0] == reg[0]);
            assert(out.drop_first() =~= spec_reg_insert(reg.drop_first(), s));
            if service_key_matches(reg[0], port, proto) {
            } else {
                lemma_reg_insert_keeps(reg.drop_first(), s, port, proto);
            }
        }
    }
}

/// Building keeps every already findable key findable.
proof fn lemma_build_go_keeps(
    lines: Seq<Seq<char>>,
    reg: Seq<ServiceView>,
    port: u16,
    proto: Seq<char>,
)
    requires
        spec_find_service(reg, port, proto) is Some,
    ensures
        spec_find_service(build_go(lines, reg), port, proto) is Some,
    decreases lines.len(),
{
    if lines.len() == 0 {
    } else {
        let reg2 = if spec_line_selected(lines[0]) {
            match spec_parse_line(lines[0]) {
                Some(s) => spec_reg_insert(reg, s),
                None => reg,
            }
        } else {
            reg
        };
        if spec_line_selected(lines[0]) && spec_parse_line(lines[0]) is Some {
            lemma_reg_insert_keeps(reg, spec_parse_line(lines[0])->0, port, proto);
        }
        lemma_build_go_keeps(lines.drop_first(), reg2, port, proto);
    }
}

/// Building keeps a registry well formed.
proof fn lemma_build_go_wf(lines: Seq<Seq<char>>, reg: Seq<ServiceView>)
    requires
        registry_wf(reg),
    ensures
        registry_wf(build_go(lines, reg)),
    decreases lines.len(),
{
    if lines.len() == 0 {
    } else {
        let reg2 = if spec_line_selected(lines[0]) {
            match spec_parse_line(lines[0]) {
                Some(s) => spec_reg_insert(reg, s),
                None => reg,
            }
        } else {
            reg
        };
        if spec_line_selected(lines[0]) && spec_parse_line(lines[0]) is Some {
            lemma_reg_insert_wf(reg, spec_parse_line(lines[0])->0);
        }
        lemma_build_go_wf(lines.drop_first(), reg2);
    }
}

/// A built registry is well formed: each (port, protocol) key is held by
/// at most one entry.
pub proof fn lemma_build_registry_wf(text: Seq<char>)
    ensures
        registry_wf(spec_build_registry(text)),
{
    lemma_build_go_wf(spec_lines(text), Seq::empty());
}

/// A found entry is keyed by the queried pair.
pub proof fn lemma_find_service_key(reg: Seq<ServiceView>, port: u16, proto: Seq<char>)
    ensures
        spec_find_service(reg, port, proto) matches Some(e) ==> service_key_matches(
            e,
            port,
            proto,
        ),
    decreases reg.len(),
{
    if reg.len() == 0 {
    } else if service_key_matches(reg[0], port, proto) {
    } else {
        lemma_find_service_key(reg.drop_first(), port, proto);
    }
}

proof fn lemma_build_go_line(lines: Seq<Seq<char>>, reg: Seq<ServiceView>, k: int)
    requires
        0 <= k < lines.len(),
        spec_line_selected(lines[k]),
        spec_parse_line(lines[k]) is Some,
    ensures
        spec_find_service(
            build_go(lines, reg),
            spec_parse_line(lines[k])->0.port,
            spec_parse_line(lines[k])->0.protocol,
        ) is Some,
    decreases lines.len(),
{
    let reg2 = if spec_line_selected(lines[0]) {
        match spec_parse_line(lines[0]) {
            Some(s) => spec_reg_insert(reg, s),
            None => reg,
        }
    } else {
        reg
    };
    if k == 0 {
        let s = spec_parse_line(lines[0])->0;
        lemma_reg_insert_finds(reg, s);
        lemma_build_go_keeps(lines.drop_first(), reg2, s.port, s.protocol);
    } else {
        assert(lines.drop_first()[k - 1] == lines[k]);
        lemma_build_go_line(lines.drop_first(), reg2, k - 1);
    }
}

/// Round trip: every successfully parsed line of the dataset produces a
/// queryable entry under its own (port, protocol) key, and the entry
/// found is keyed by exactly that pair. Together with well-formedness
/// ([`lemma_build_registry_wf`]) that entry is unique.
pub proof fn lemma_registry_round_trip(text: Seq<char>)
    ensures
        forall|k: int|
            #![trigger spec_lines(text)[k]]
            0 <= k < spec_lines(text).len() ==> ((spec_line_selected(spec_lines(text)[k])
                && spec_parse_line(spec_lines(text)[k]) is Some) ==> {
                let s = spec_parse_line(spec_lines(text)[k])->0;
                &&& spec_find_service(spec_build_registry(text), s.port, s.protocol) is Some
                &&& service_key_matches(
                    spec_find_service(spec_build_registry(text), s.port, s.protocol)->0,
                    s.port,
                    s.protocol,
                )
            }),
{
    assert forall|k: int|
        0 <= k < spec_lines(text).len() && spec_line_selected(#[trigger] spec_lines(text)[k])
            && spec_parse_line(spec_lines(text)[k]) is Some implies {
        let s = spec_parse_line(spec_lines(text)[k])->0;
        &&& spec_find_service(spec_build_registry(text), s.port, s.protocol) is Some
        &&& service_key_matches(
            spec_find_service(spec_build_registry(text), s.port, s.protocol)->0,
            s.port,
            s.protocol,
        )
    } by {
        let s = spec_parse_line(spec_lines(text)[k])->0;
        lemma_build_go_line(spec_lines(text), Seq::empty(), k);
        lemma_find_service_key(spec_build_registry(text), s.port, s.protocol);
    }
}

} // verus!
