//! Parsing of port specifications: a range (`"0-1024"`), a list
//! (`"22,80,443"`) or a single port (`"80"`).

use vstd::prelude::*;

use crate::text::{
    all_digits, all_white_space, chars_of, decimal, decimal_string, is_digit, is_white_space,
    lemma_decimal, lemma_decimal_parse, lemma_trim_surrounded, parse_u16_in, spec_parse_u16, trim,
    trim_bounds, trim_start,
};

verus! {

/// The most commonly open ports, in ascending order.
pub const TOP_1000_PORTS: [u16; 362] = [
    1, 2, 3, 7, 9, 13, 17, 19, 20, 21, 22, 23, 25, 26, 37, 38, 42, 49, 53, 67, 68, 69, 79, 80, 81,
    82, 88, 100, 106, 110, 111, 112, 113, 119, 120, 123, 135, 136, 137, 138, 139, 143, 144, 158,
    161, 162, 177, 179, 192, 199, 207, 217, 254, 255, 280, 311, 363, 389, 402, 407, 427, 434, 443,
    444, 445, 464, 465, 497, 500, 502, 512, 513, 514, 515, 517, 518, 520, 539, 543, 544, 548, 554,
    559, 587, 593, 623, 625, 626, 631, 636, 639, 643, 646, 657, 664, 682, 683, 684, 685, 686, 687,
    688, 689, 764, 767, 772, 773, 774, 775, 776, 780, 781, 782, 786, 787, 789, 800, 808, 814, 826,
    829, 838, 873, 902, 903, 944, 959, 965, 983, 989, 990, 993, 995, 996, 997, 998, 999, 1000, 1001,
    1007, 1008, 1012, 1013, 1014, 1019, 1020, 1021, 1022, 1023, 1024, 1025, 1026, 1027, 1028, 1029,
    1030, 1031, 1032, 1033, 1034, 1035, 1036, 1037, 1038, 1039, 1040, 1041, 1042, 1043, 1044, 1045,
    1046, 1047, 1048, 1049, 1050, 1051, 1053, 1054, 1055, 1056, 1057, 1058, 1059, 1060, 1064, 1065,
    1066, 1067, 1068, 1069, 1070, 1071, 1072, 1080, 1081, 1087, 1088, 1090, 1100, 1101, 1105, 1110,
    1124, 1200, 1214, 1234, 1346, 1419, 1433, 1434, 1455, 1457, 1484, 1485, 1521, 1524, 1645, 1646,
    1701, 1718, 1719, 1720, 1723, 1755, 1761, 1782, 1801, 1804, 1812, 1813, 1885, 1886, 1900, 1901,
    1993, 1998, 2000, 2001, 2002, 2005, 2048, 2049, 2051, 2103, 2105, 2107, 2121, 2148, 2160, 2161,
    2222, 2223, 2343, 2345, 2362, 2383, 2401, 2601, 2717, 2869, 2967, 3000, 3001, 3052, 3128, 3130,
    3283, 3296, 3306, 3343, 3389, 3401, 3456, 3457, 3659, 3664, 3689, 3690, 3702, 3703, 3986, 4000,
    4001, 4008, 4045, 4444, 4500, 4666, 4672, 4899, 5000, 5001, 5002, 5003, 5009, 5010, 5050, 5051,
    5060, 5093, 5101, 5120, 5190, 5351, 5353, 5355, 5357, 5432, 5500, 5555, 5631, 5632, 5666, 5800,
    5900, 5901, 6000, 6001, 6002, 6004, 6050, 6112, 6346, 6347, 6646, 6970, 6971, 7000, 7070, 7937,
    7938, 8000, 8001, 8008, 8009, 8010, 8031, 8080, 8081, 8181, 8193, 8443, 8888, 8900, 9000, 9001,
    9020, 9090, 9100, 9102, 9103, 9199, 9200, 9370, 9876, 9877, 9950, 9999, 10000, 10010, 10080,
];

/// The index of the first `c` in `s`, or `s.len()` where `s` holds none.
pub open spec fn first_index(s: Seq<char>, c: char) -> nat
    decreases s.len(),
{
    if s.len() == 0 {
        0
    } else if s[0] == c {
        0
    } else {
        1 + first_index(s.drop_first(), c)
    }
}

/// All ports from `start` to `end`, both included, in ascending order.
pub open spec fn port_range(start: u16, end: u16) -> Seq<u16> {
    Seq::new((end - start + 1) as nat, |i: int| (start + i) as u16)
}

/// The message for a range whose first port does not parse.
pub open spec fn invalid_start_message(part: Seq<char>) -> Seq<char> {
    "Porta inicial inválida: '"@ + part + "'"@
}

/// The message for a range whose last port does not parse.
pub open spec fn invalid_end_message(part: Seq<char>) -> Seq<char> {
    "Porta final inválida: '"@ + part + "'"@
}

/// The message for a range whose first port is above its last.
pub open spec fn inverted_range_message(start: u16, end: u16) -> Seq<char> {
    "Porta inicial ("@ + decimal(start as nat) + ") maior que a final ("@ + decimal(end as nat)
        + ")."@
}

/// The message for a list item that does not parse.
pub open spec fn invalid_list_item_message(item: Seq<char>) -> Seq<char> {
    "Porta inválida na lista: '"@ + item + "'"@
}

/// The message for a single port that does not parse.
pub open spec fn invalid_port_message(s: Seq<char>) -> Seq<char> {
    "Porta inválida: '"@ + s + "'"@
}

/// A comma-separated list: each item, trimmed, is a port; the first item that
/// is not gives the error, carrying that trimmed item.
pub open spec fn spec_parse_list(s: Seq<char>) -> Result<Seq<u16>, Seq<char>>
    decreases s.len(),
{
    let k = first_index(s, ',');
    let item = trim(s.take(k as int));
    match spec_parse_u16(item) {
        None => Err(item),
        Some(port) => if k < s.len() {
            match spec_parse_list(s.skip(k as int + 1)) {
                Ok(rest) => Ok(seq![port] + rest),
                Err(e) => Err(e),
            }
        } else {
            Ok(seq![port])
        },
    }
}

/// What `parse_ports` gives for the characters `s`: the ports, or the error
/// message.
///
/// The input is trimmed first. With a `-` in it, it is a range split at its
/// first `-`; else, with a `,` in it, a list; else a single port.
pub open spec fn spec_parse_ports(s: Seq<char>) -> Result<Seq<u16>, Seq<char>> {
    let t = trim(s);
    if t.contains('-') {
        let k = first_index(t, '-');
        let first = trim(t.take(k as int));
        let last = trim(t.skip(k as int + 1));
        match (spec_parse_u16(first), spec_parse_u16(last)) {
            (None, _) => Err(invalid_start_message(first)),
            (Some(_), None) => Err(invalid_end_message(last)),
            (Some(start), Some(end)) => if start > end {
                Err(inverted_range_message(start, end))
            } else {
                Ok(port_range(start, end))
            },
        }
    } else if t.contains(',') {
        match spec_parse_list(t) {
            Ok(ports) => Ok(ports),
            Err(item) => Err(invalid_list_item_message(item)),
        }
    } else {
        match spec_parse_u16(t) {
            Some(port) => Ok(seq![port]),
            None => Err(invalid_port_message(t)),
        }
    }
}

/// `first_index` is the position of the first `c`, or the length where there
/// is none.
pub proof fn lemma_first_index(s: Seq<char>, c: char)
    ensures
        first_index(s, c) <= s.len(),
        first_index(s, c) < s.len() <==> s.contains(c),
        first_index(s, c) < s.len() ==> s[first_index(s, c) as int] == c,
        forall|j: int| 0 <= j < first_index(s, c) ==> s[j] != c,
    decreases s.len(),
{
    if s.len() > 0 && s[0] != c {
        lemma_first_index(s.drop_first(), c);
        assert forall|j: int| 0 <= j < first_index(s, c) implies s[j] != c by {
            if j > 0 {
                assert(s[j] == s.drop_first()[j - 1]);
            }
        }
        if s.contains(c) {
            let i = choose|i: int| 0 <= i < s.len() && s[i] == c;
            assert(s.drop_first()[i - 1] == c);
        }
        if s.drop_first().contains(c) {
            let i = choose|i: int| 0 <= i < s.drop_first().len() && s.drop_first()[i] == c;
            assert(s[i + 1] == c);
        }
    } else if s.len() > 0 {
        assert(s[0] == c);
    }
}

/// The first position in `cs[lo..hi]` that holds `c`.
fn find_char(cs: &Vec<char>, lo: usize, hi: usize, c: char) -> (r: Option<usize>)
    requires
        lo <= hi <= cs@.len(),
    ensures
        first_index(cs@.subrange(lo as int, hi as int), c) == match r {
            Some(i) => i - lo,
            None => hi - lo,
        },
        r matches Some(i) ==> lo <= i < hi,
{
    let ghost s = cs@.subrange(lo as int, hi as int);
    let mut i = lo;
    while i < hi
        invariant
            lo <= i <= hi <= cs@.len(),
            s == cs@.subrange(lo as int, hi as int),
            forall|j: int| lo <= j < i ==> cs@[j] != c,
        decreases hi - i,
    {
        if cs[i] == c {
            proof {
                lemma_first_index(s, c);
                let k = first_index(s, c);
                if k < i - lo {
                    assert(s[k as int] == cs@[lo + k]);
                }
                assert(s[i - lo] == c);
            }
            return Some(i);
        }
        i = i + 1;
    }
    proof {
        lemma_first_index(s, c);
        let k = first_index(s, c);
        if k < s.len() {
            assert(s[k as int] == cs@[lo + k]);
        }
    }
    None
}


/// `parsed` with `prefix` put in front of its ports.
pub open spec fn after_prefix(prefix: Seq<u16>, parsed: Result<Seq<u16>, Seq<char>>) -> Result<
    Seq<u16>,
    Seq<char>,
> {
    match parsed {
        Ok(ports) => Ok(prefix + ports),
        Err(e) => Err(e),
    }
}

/// `what` followed by `part` between single quotes.
fn quoted_message(what: &str, part: &str) -> (r: String)
    ensures
        r@ == what@ + part@ + "'"@,
{
    let mut r = String::from_str(what);
    r.append(part);
    r.append("'");
    r
}

/// Parses the comma-separated list `cs[lo..hi]` of the string `s`.
fn parse_list_in(s: &str, cs: &Vec<char>, lo: usize, hi: usize) -> (r: Result<Vec<u16>, String>)
    requires
        cs@ == s@,
        lo <= hi <= cs@.len(),
    ensures
        match spec_parse_list(cs@.subrange(lo as int, hi as int)) {
            Ok(ports) => r is Ok && r->Ok_0@ == ports,
            Err(item) => r is Err && r->Err_0@ == invalid_list_item_message(item),
        },
{
    let mut acc: Vec<u16> = Vec::new();
    let mut cur = lo;
    loop
        invariant
            cs@ == s@,
            lo <= cur <= hi <= cs@.len(),
            spec_parse_list(cs@.subrange(lo as int, hi as int)) == after_prefix(
                acc@,
                spec_parse_list(cs@.subrange(cur as int, hi as int)),
            ),
        decreases hi - cur,
    {
        let ghost t = cs@.subrange(cur as int, hi as int);
        let found = find_char(cs, cur, hi, ',');
        let end = match found {
            Some(k) => k,
            None => hi,
        };
        let (a, b) = trim_bounds(cs, cur, end);
        assert(t.take(end - cur) =~= cs@.subrange(cur as int, end as int));
        let parsed = parse_u16_in(cs, a, b);
        match parsed {
            None => {
                let item = s.substring_char(a, b);
                let msg = quoted_message("Porta inválida na lista: '", item);
                return Err(msg);
            },
            Some(port) => {
                let ghost before = acc@;
                acc.push(port);
                match found {
                    Some(k) => {
                        assert(t.skip(k - cur + 1) =~= cs@.subrange(k + 1, hi as int));
                        proof {
                            match spec_parse_list(cs@.subrange(k + 1, hi as int)) {
                                Ok(rest) => {
                                    assert(before + (seq![port] + rest) =~= acc@ + rest);
                                },
                                Err(_) => {},
                            }
                        }
                        cur = k + 1;
                    },
                    None => {
                        assert(before + seq![port] =~= acc@);
                        return Ok(acc);
                    },
                }
            },
        }
    }
}


/// All ports from `start` to `end`, both included, in ascending order.
fn ports_between(start: u16, end: u16) -> (r: Vec<u16>)
    requires
        start <= end,
    ensures
        r@ == port_range(start, end),
{
    let mut r: Vec<u16> = Vec::new();
    let mut p: u32 = start as u32;
    while p <= end as u32
        invariant
            start <= p <= end as u32 + 1,
            r@ =~= port_range(start, (p - 1) as u16).take(p - start),
            r@.len() == p - start,
            forall|i: int| 0 <= i < r@.len() ==> r@[i] == start + i,
        decreases end as u32 + 1 - p,
    {
        r.push(p as u16);
        p = p + 1;
    }
    assert(r@ =~= port_range(start, end));
    r
}

/// Interprets a port specification: a range (`"0-1024"`), a list
/// (`"22,80,443"`) or a single port (`"80"`), with surrounding whitespace
/// ignored.
pub fn parse_ports(s: &str) -> (r: Result<Vec<u16>, String>)
    ensures
        match spec_parse_ports(s@) {
            Ok(ports) => r is Ok && r->Ok_0@ == ports,
            Err(msg) => r is Err && r->Err_0@ == msg,
        },
{
    let cs = chars_of(s);
    let (ts, te) = trim_bounds(&cs, 0, cs.len());
    assert(cs@.subrange(0, cs@.len() as int) =~= s@);
    let ghost t = cs@.subrange(ts as int, te as int);
    proof {
        lemma_first_index(t, '-');
        lemma_first_index(t, ',');
    }
    if let Some(k) = find_char(&cs, ts, te, '-') {
        let (a1, b1) = trim_bounds(&cs, ts, k);
        let (a2, b2) = trim_bounds(&cs, k + 1, te);
        assert(t.take(k - ts) =~= cs@.subrange(ts as int, k as int));
        assert(t.skip(k - ts + 1) =~= cs@.subrange(k + 1, te as int));
        let start = match parse_u16_in(&cs, a1, b1) {
            Some(p) => p,
            None => {
                return Err(quoted_message("Porta inicial inválida: '", s.substring_char(a1, b1)));
            },
        };
        let end = match parse_u16_in(&cs, a2, b2) {
            Some(p) => p,
            None => {
                return Err(quoted_message("Porta final inválida: '", s.substring_char(a2, b2)));
            },
        };
        if start > end {
            let mut msg = String::from_str("Porta inicial (");
            msg.append(decimal_string(start).as_str());
            msg.append(") maior que a final (");
            msg.append(decimal_string(end).as_str());
            msg.append(").");
            return Err(msg);
        }
        Ok(ports_between(start, end))
    } else if let Some(_) = find_char(&cs, ts, te, ',') {
        parse_list_in(s, &cs, ts, te)
    } else {
        match parse_u16_in(&cs, ts, te) {
            Some(p) => Ok(vec![p]),
            None => Err(quoted_message("Porta inválida: '", s.substring_char(ts, te))),
        }
    }
}


/// The decimal representations of `ports`, separated by commas.
pub open spec fn comma_list(ports: Seq<u16>) -> Seq<char>
    decreases ports.len(),
{
    if ports.len() <= 1 {
        if ports.len() == 1 {
            decimal(ports[0] as nat)
        } else {
            Seq::<char>::empty()
        }
    } else {
        decimal(ports[0] as nat) + seq![','] + comma_list(ports.drop_first())
    }
}

/// Whitespace before and after a port specification is ignored.
pub proof fn law_surrounding_whitespace_ignored(w1: Seq<char>, s: Seq<char>, w2: Seq<char>)
    requires
        all_white_space(w1),
        all_white_space(w2),
    ensures
        spec_parse_ports(w1 + s + w2) == spec_parse_ports(s),
{
    lemma_trim_surrounded(w1, s, w2);
}

/// A run of digits holds no character `c` that is not a digit.
proof fn lemma_digits_lack(s: Seq<char>, c: char)
    requires
        all_digits(s),
        !is_digit(c),
    ensures
        !s.contains(c),
        first_index(s, c) == s.len(),
{
    if s.contains(c) {
        let i = choose|i: int| 0 <= i < s.len() && s[i] == c;
        assert(is_digit(s[i]));
    }
    lemma_first_index(s, c);
}

/// A single port written in decimal parses to that port alone.
pub proof fn law_single_port(p: u16)
    ensures
        spec_parse_ports(decimal(p as nat)) == Ok::<Seq<u16>, Seq<char>>(seq![p]),
{
    lemma_decimal(p as nat);
    lemma_decimal_parse(p);
    lemma_digits_lack(decimal(p as nat), '-');
    lemma_digits_lack(decimal(p as nat), ',');
}

/// The range `a-b`, with both ends written in decimal.
pub open spec fn range_text(a: u16, b: u16) -> Seq<char> {
    decimal(a as nat) + seq!['-'] + decimal(b as nat)
}

/// Facts about `range_text`: where its dash is and what lies around it.
proof fn lemma_range_text(a: u16, b: u16)
    ensures
        trim(range_text(a, b)) == range_text(a, b),
        range_text(a, b).contains('-'),
        first_index(range_text(a, b), '-') == decimal(a as nat).len(),
        range_text(a, b).take(decimal(a as nat).len() as int) == decimal(a as nat),
        range_text(a, b).skip(decimal(a as nat).len() as int + 1) == decimal(b as nat),
{
    let da = decimal(a as nat);
    let db = decimal(b as nat);
    let t = range_text(a, b);
    lemma_decimal(a as nat);
    lemma_decimal(b as nat);
    lemma_digits_lack(da, '-');
    assert(t[da.len() as int] == '-');
    assert(t.take(da.len() as int) =~= da);
    assert(t.skip(da.len() as int + 1) =~= db);
    lemma_first_index(t, '-');
    lemma_first_index(da, '-');
    let k = first_index(t, '-');
    if k < da.len() {
        assert(t[k as int] == da[k as int]);
    }
    assert(is_digit(da[0]));
    assert(is_digit(db.last()));
    assert(t[0] == da[0]);
    assert(t.last() == db.last());
}

/// A range `a-b` with `a <= b`, written in decimal, parses to every port from
/// `a` to `b`, in ascending order.
pub proof fn law_range(a: u16, b: u16)
    requires
        a <= b,
    ensures
        spec_parse_ports(range_text(a, b)) == Ok::<Seq<u16>, Seq<char>>(port_range(a, b)),
        port_range(a, b).len() == b - a + 1,
        forall|i: int| 0 <= i < port_range(a, b).len() ==> #[trigger] port_range(a, b)[i] == a + i,
{
    lemma_range_text(a, b);
    lemma_decimal_parse(a);
    lemma_decimal_parse(b);
}

/// A range `a-b` with `a > b` is refused, with a message that names both ends.
pub proof fn law_inverted_range(a: u16, b: u16)
    requires
        a > b,
    ensures
        spec_parse_ports(range_text(a, b)) == Err::<Seq<u16>, Seq<char>>(
            inverted_range_message(a, b),
        ),
{
    lemma_range_text(a, b);
    lemma_decimal_parse(a);
    lemma_decimal_parse(b);
}

/// Facts about `comma_list`: a non-empty list of digit runs, which holds a
/// comma exactly when it has more than one port.
proof fn lemma_comma_list(ports: Seq<u16>)
    requires
        ports.len() >= 1,
    ensures
        comma_list(ports).len() > 0,
        is_digit(comma_list(ports)[0]),
        is_digit(comma_list(ports).last()),
        !comma_list(ports).contains('-'),
        spec_parse_list(comma_list(ports)) == Ok::<Seq<u16>, Seq<char>>(ports),
        comma_list(ports).contains(',') <==> ports.len() >= 2,
    decreases ports.len(),
{
    let d = decimal(ports[0] as nat);
    lemma_decimal(ports[0] as nat);
    lemma_decimal_parse(ports[0]);
    lemma_digits_lack(d, '-');
    lemma_digits_lack(d, ',');
    let s = comma_list(ports);
    if ports.len() == 1 {
        assert(s == d);
        assert(s.take(s.len() as int) =~= s);
        assert(is_digit(d[0]));
        assert(is_digit(d.last()));
        assert(ports =~= seq![ports[0]]);
    } else {
        let rest = comma_list(ports.drop_first());
        lemma_comma_list(ports.drop_first());
        assert(s == d + seq![','] + rest);
        assert(s[d.len() as int] == ',');
        lemma_first_index(s, ',');
        let k = first_index(s, ',');
        if k < d.len() {
            assert(s[k as int] == d[k as int]);
        }
        assert(k == d.len());
        assert(s.take(k as int) =~= d);
        assert(s.skip(k as int + 1) =~= rest);
        assert(is_digit(d[0]));
        assert(s[0] == d[0]);
        assert(s.last() == rest.last());
        if s.contains('-') {
            let i = choose|i: int| 0 <= i < s.len() && s[i] == '-';
            if i < d.len() {
                assert(d[i] == '-');
            } else if i > d.len() {
                assert(rest[i - d.len() - 1] == '-');
            }
        }
        assert(seq![ports[0]] + ports.drop_first() =~= ports);
    }
}

/// A list of ports written in decimal and separated by commas parses back to
/// that list, in its order.
pub proof fn law_list(ports: Seq<u16>)
    requires
        ports.len() >= 1,
    ensures
        spec_parse_ports(comma_list(ports)) == Ok::<Seq<u16>, Seq<char>>(ports),
{
    lemma_comma_list(ports);
    let s = comma_list(ports);
    assert(is_digit(s[0]));
    assert(is_digit(s.last()));
    assert(trim(s) == s);
    if ports.len() == 1 {
        law_single_port(ports[0]);
        assert(ports =~= seq![ports[0]]);
    }
}

/// A list parse that succeeds gives at least one port.
proof fn lemma_list_nonempty(s: Seq<char>)
    ensures
        spec_parse_list(s) matches Ok(ports) ==> ports.len() > 0,
    decreases s.len(),
{
    let k = first_index(s, ',');
    lemma_first_index(s, ',');
    if k < s.len() {
        lemma_list_nonempty(s.skip(k as int + 1));
    }
}

/// A port specification that is accepted names at least one port.
pub proof fn law_accepted_is_nonempty(s: Seq<char>)
    ensures
        spec_parse_ports(s) matches Ok(ports) ==> ports.len() > 0,
{
    lemma_list_nonempty(trim(s));
}


/// Ports written in decimal, the item of port `i` with the whitespace runs
/// `before[i]` and `after[i]` around it, separated by commas.
pub open spec fn spaced_list(ports: Seq<u16>, before: Seq<Seq<char>>, after: Seq<Seq<char>>) -> Seq<
    char,
>
    decreases ports.len(),
{
    if ports.len() == 0 {
        Seq::<char>::empty()
    } else {
        let item = before[0] + decimal(ports[0] as nat) + after[0];
        if ports.len() == 1 {
            item
        } else {
            item + seq![','] + spaced_list(ports.drop_first(), before.drop_first(), after.drop_first())
        }
    }
}

/// Whether `runs` holds `n` runs of whitespace.
pub open spec fn whitespace_runs(runs: Seq<Seq<char>>, n: nat) -> bool {
    &&& runs.len() == n
    &&& forall|i: int| 0 <= i < n ==> all_white_space(#[trigger] runs[i])
}

/// Whether every character of `s` is whitespace, a digit or a comma.
pub open spec fn list_chars(s: Seq<char>) -> bool {
    forall|i: int|
        0 <= i < s.len() ==> is_white_space(#[trigger] s[i]) || is_digit(s[i]) || s[i] == ','
}

/// A spaced item is whitespace and digits only.
proof fn lemma_spaced_item(p: u16, before: Seq<char>, after: Seq<char>)
    requires
        all_white_space(before),
        all_white_space(after),
    ensures
        !(before + decimal(p as nat) + after).contains(','),
        !(before + decimal(p as nat) + after).contains('-'),
        first_index(before + decimal(p as nat) + after, ',') == (before + decimal(p as nat)
            + after).len(),
        trim(before + decimal(p as nat) + after) == decimal(p as nat),
        list_chars(before + decimal(p as nat) + after),
{
    let d = decimal(p as nat);
    let item = before + d + after;
    lemma_decimal(p as nat);
    lemma_decimal_parse(p);
    lemma_trim_surrounded(before, d, after);
    assert forall|i: int| 0 <= i < item.len() implies is_white_space(#[trigger] item[i])
        || is_digit(item[i]) by {
        if i < before.len() {
            assert(item[i] == before[i]);
        } else if i < before.len() + d.len() {
            assert(item[i] == d[i - before.len()]);
        } else {
            assert(item[i] == after[i - before.len() - d.len()]);
        }
    }
    if item.contains(',') {
        let i = choose|i: int| 0 <= i < item.len() && item[i] == ',';
        assert(is_white_space(item[i]) || is_digit(item[i]));
    }
    if item.contains('-') {
        let i = choose|i: int| 0 <= i < item.len() && item[i] == '-';
        assert(is_white_space(item[i]) || is_digit(item[i]));
    }
    lemma_first_index(item, ',');
}

/// A spaced list parses as a list to its ports, holds no dash, and holds a
/// comma exactly when it has more than one port.
proof fn lemma_spaced_list(ports: Seq<u16>, before: Seq<Seq<char>>, after: Seq<Seq<char>>)
    requires
        ports.len() >= 1,
        whitespace_runs(before, ports.len()),
        whitespace_runs(after, ports.len()),
    ensures
        spec_parse_list(spaced_list(ports, before, after)) == Ok::<Seq<u16>, Seq<char>>(ports),
        !spaced_list(ports, before, after).contains('-'),
        spaced_list(ports, before, after).contains(',') <==> ports.len() >= 2,
    decreases ports.len(),
{
    let s = spaced_list(ports, before, after);
    let d = decimal(ports[0] as nat);
    let item = before[0] + d + after[0];
    assert(all_white_space(before[0]));
    assert(all_white_space(after[0]));
    lemma_spaced_item(ports[0], before[0], after[0]);
    lemma_decimal_parse(ports[0]);
    if ports.len() == 1 {
        assert(s == item);
        assert(s.take(s.len() as int) =~= s);
        assert(ports =~= seq![ports[0]]);
    } else {
        let rest = spaced_list(ports.drop_first(), before.drop_first(), after.drop_first());
        assert(whitespace_runs(before.drop_first(), ports.drop_first().len())) by {
            assert forall|i: int| 0 <= i < ports.drop_first().len() implies all_white_space(
                #[trigger] before.drop_first()[i],
            ) by {
                assert(all_white_space(before[i + 1]));
            }
        }
        assert(whitespace_runs(after.drop_first(), ports.drop_first().len())) by {
            assert forall|i: int| 0 <= i < ports.drop_first().len() implies all_white_space(
                #[trigger] after.drop_first()[i],
            ) by {
                assert(all_white_space(after[i + 1]));
            }
        }
        lemma_spaced_list(ports.drop_first(), before.drop_first(), after.drop_first());
        assert(s == item + seq![','] + rest);
        assert(s[item.len() as int] == ',');
        lemma_first_index(s, ',');
        let k = first_index(s, ',');
        if k < item.len() {
            assert(s[k as int] == item[k as int]);
            assert(item.contains(','));
        }
        assert(k == item.len());
        assert(s.take(k as int) =~= item);
        assert(s.skip(k as int + 1) =~= rest);
        if s.contains('-') {
            let i = choose|i: int| 0 <= i < s.len() && s[i] == '-';
            if i < item.len() {
                assert(item[i] == '-');
            } else if i > item.len() {
                assert(rest[i - item.len() - 1] == '-');
            }
        }
        assert(seq![ports[0]] + ports.drop_first() =~= ports);
    }
}

/// Emptying the first `before` run takes it off the front.
proof fn lemma_spaced_list_front(ports: Seq<u16>, before: Seq<Seq<char>>, after: Seq<Seq<char>>)
    requires
        ports.len() >= 1,
        before.len() == ports.len(),
        after.len() == ports.len(),
    ensures
        spaced_list(ports, before, after) == before[0] + spaced_list(
            ports,
            before.update(0, Seq::<char>::empty()),
            after,
        ),
{
    let b2 = before.update(0, Seq::<char>::empty());
    let d = decimal(ports[0] as nat);
    assert(b2[0] + d + after[0] =~= d + after[0]);
    assert(before[0] + d + after[0] =~= before[0] + (b2[0] + d + after[0]));
    if ports.len() >= 2 {
        assert(b2.drop_first() =~= before.drop_first());
        let rest = spaced_list(ports.drop_first(), before.drop_first(), after.drop_first());
        assert(before[0] + d + after[0] + seq![','] + rest =~= before[0] + (b2[0] + d + after[0]
            + seq![','] + rest));
    }
}

/// Emptying the last `after` run takes it off the back; the list then ends
/// with a digit.
proof fn lemma_spaced_list_back(ports: Seq<u16>, before: Seq<Seq<char>>, after: Seq<Seq<char>>)
    requires
        ports.len() >= 1,
        before.len() == ports.len(),
        after.len() == ports.len(),
    ensures
        spaced_list(ports, before, after) == spaced_list(
            ports,
            before,
            after.update(ports.len() - 1, Seq::<char>::empty()),
        ) + after.last(),
        is_digit(
            spaced_list(ports, before, after.update(ports.len() - 1, Seq::<char>::empty())).last(),
        ),
    decreases ports.len(),
{
    let n = ports.len();
    let a2 = after.update(n - 1, Seq::<char>::empty());
    let d = decimal(ports[0] as nat);
    lemma_decimal(ports[0] as nat);
    if n == 1 {
        assert(before[0] + d + a2[0] =~= before[0] + d);
        assert(before[0] + d + after[0] =~= (before[0] + d) + after.last());
        assert(is_digit(d.last()));
    } else {
        lemma_spaced_list_back(ports.drop_first(), before.drop_first(), after.drop_first());
        assert(a2.drop_first() =~= after.drop_first().update(n - 2, Seq::<char>::empty()));
        assert(a2[0] == after[0]);
        let rest = spaced_list(ports.drop_first(), before.drop_first(), after.drop_first());
        let rest2 = spaced_list(ports.drop_first(), before.drop_first(), a2.drop_first());
        assert(rest == rest2 + after.last());
        let item = before[0] + d + after[0];
        assert(item + seq![','] + rest =~= (item + seq![','] + rest2) + after.last());
        assert((item + seq![','] + rest2).last() == rest2.last());
    }
}

/// A list of ports written in decimal, with whitespace around each item,
/// parses to those ports in order: every item is trimmed before it is parsed,
/// the first and the last too.
pub proof fn law_spaced_list(ports: Seq<u16>, before: Seq<Seq<char>>, after: Seq<Seq<char>>)
    requires
        ports.len() >= 1,
        whitespace_runs(before, ports.len()),
        whitespace_runs(after, ports.len()),
    ensures
        spec_parse_ports(spaced_list(ports, before, after)) == Ok::<Seq<u16>, Seq<char>>(ports),
{
    let n = ports.len();
    let e = Seq::<char>::empty();
    let b2 = before.update(0, e);
    let a2 = after.update(n - 1, e);
    assert(all_white_space(e));
    assert(whitespace_runs(b2, n)) by {
        assert forall|i: int| 0 <= i < n implies all_white_space(#[trigger] b2[i]) by {
            if i != 0 {
                assert(all_white_space(before[i]));
            }
        }
    }
    assert(whitespace_runs(a2, n)) by {
        assert forall|i: int| 0 <= i < n implies all_white_space(#[trigger] a2[i]) by {
            if i != n - 1 {
                assert(all_white_space(after[i]));
            }
        }
    }
    let m = spaced_list(ports, b2, a2);
    lemma_spaced_list_front(ports, before, after);
    lemma_spaced_list_back(ports, b2, after);
    assert(spaced_list(ports, before, after) =~= before[0] + m + after.last());
    assert(all_white_space(before[0]));
    assert(all_white_space(after.last()));
    law_surrounding_whitespace_ignored(before[0], m, after.last());
    lemma_spaced_list(ports, b2, a2);
    let d = decimal(ports[0] as nat);
    lemma_decimal(ports[0] as nat);
    if n >= 2 {
        assert(m == b2[0] + d + a2[0] + seq![','] + spaced_list(
            ports.drop_first(),
            b2.drop_first(),
            a2.drop_first(),
        ));
        assert(m[0] == d[0]);
    } else {
        assert(m =~= d);
    }
    assert(is_digit(d[0]));
    assert(is_digit(m.last()));
    assert(trim_start(m) == m);
    assert(trim(m) == m);
    if n == 1 {
        law_single_port(ports[0]);
        assert(ports =~= seq![ports[0]]);
    }
}

} // verus!
