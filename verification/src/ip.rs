//! The text forms of IP addresses.
//!
//! An IPv4 address is four decimal numbers up to 255 without leading zeros, with dots between
//! them. An IPv6 address is eight groups of one to four hexadecimal digits with colons between
//! them; `::` stands for one or more groups of zero, once, and the last two groups may be written
//! as an IPv4 address.

use vstd::prelude::*;

use crate::number;
use crate::text;

verus! {

/// An address by its numbers: four octets, or eight groups of sixteen bits.
pub enum Address {
    V4(Vec<u16>),
    V6(Vec<u16>),
}

/// An [`Address`] with its numbers as a sequence.
#[verifier::ext_equal]
pub enum AddressView {
    V4(Seq<u16>),
    V6(Seq<u16>),
}

impl View for Address {
    type V = AddressView;

    open spec fn view(&self) -> AddressView {
        match self {
            Address::V4(octets) => AddressView::V4(octets@),
            Address::V6(groups) => AddressView::V6(groups@),
        }
    }
}

impl AddressView {
    /// `127.x.x.x` and `::1`.
    pub open spec fn is_loopback(self) -> bool {
        match self {
            AddressView::V4(octets) => octets.len() > 0 && octets[0] == 127,
            AddressView::V6(groups) => groups == seq![0u16, 0, 0, 0, 0, 0, 0, 1],
        }
    }
}

// ---------------------------------------------------------------------------
// Grammar
// ---------------------------------------------------------------------------

/// One to three digits without a leading zero, at most 255.
pub open spec fn octet(s: Seq<char>) -> Option<u16> {
    if 1 <= s.len() <= 3 && number::all_digits(s) && (s.len() == 1 || s[0] != '0')
        && number::digits_value(s) <= 255 {
        Some(number::digits_value(s) as u16)
    } else {
        None
    }
}

/// The value of a hexadecimal digit.
pub open spec fn hex_value(c: char) -> Option<nat> {
    if '0' <= c <= '9' {
        Some((c as u32 - 48) as nat)
    } else if 'a' <= c <= 'f' {
        Some((c as u32 - 87) as nat)
    } else if 'A' <= c <= 'F' {
        Some((c as u32 - 55) as nat)
    } else {
        None
    }
}

/// The number written by a sequence of hexadecimal digits.
pub open spec fn hex_number(s: Seq<char>) -> Option<nat>
    decreases s.len(),
{
    if s.len() == 0 {
        Some(0)
    } else {
        match (hex_number(s.drop_last()), hex_value(s.last())) {
            (Some(high), Some(low)) => Some(high * 16 + low),
            _ => None,
        }
    }
}

/// One to four hexadecimal digits.
pub open spec fn group(s: Seq<char>) -> Option<u16> {
    if 1 <= s.len() <= 4 && hex_number(s) is Some {
        Some(hex_number(s)->0 as u16)
    } else {
        None
    }
}

/// Each field read as an octet.
pub open spec fn octets(parts: Seq<Seq<char>>) -> Option<Seq<u16>>
    decreases parts.len(),
{
    if parts.len() == 0 {
        Some(Seq::empty())
    } else {
        match (octets(parts.drop_last()), octet(parts.last())) {
            (Some(before), Some(last)) => Some(before.push(last)),
            _ => None,
        }
    }
}

/// Each field read as a group.
pub open spec fn groups(parts: Seq<Seq<char>>) -> Option<Seq<u16>>
    decreases parts.len(),
{
    if parts.len() == 0 {
        Some(Seq::empty())
    } else {
        match (groups(parts.drop_last()), group(parts.last())) {
            (Some(before), Some(last)) => Some(before.push(last)),
            _ => None,
        }
    }
}

/// Four octets with dots between them.
pub open spec fn ipv4(s: Seq<char>) -> Option<Seq<u16>> {
    let parts = text::fields(s, '.');
    if parts.len() == 4 {
        octets(parts)
    } else {
        None
    }
}

/// The two groups that four octets make.
pub open spec fn paired(o: Seq<u16>) -> Seq<u16> {
    seq![(o[0] * 256 + o[1]) as u16, (o[2] * 256 + o[3]) as u16]
}

/// Groups with colons between them, none for the empty text; the last field may be an IPv4
/// address where `embeds` says so.
pub open spec fn run_of_groups(s: Seq<char>, embeds: bool) -> Option<Seq<u16>> {
    let parts = text::fields(s, ':');
    if s.len() == 0 {
        Some(Seq::empty())
    } else if embeds && ipv4(parts.last()) is Some {
        match groups(parts.drop_last()) {
            Some(before) => Some(before + paired(ipv4(parts.last())->0)),
            None => None,
        }
    } else {
        groups(parts)
    }
}

/// Where the first `::` is.
pub open spec fn is_gap(s: Seq<char>, k: int) -> bool {
    0 <= k < s.len() - 1 && s[k] == ':' && s[k + 1] == ':'
}

/// There is a `::`.
pub open spec fn has_gap(s: Seq<char>) -> bool {
    exists|k: int| is_gap(s, k)
}

/// The place of the first `::`.
pub open spec fn gap(s: Seq<char>) -> int {
    choose|k: int| is_gap(s, k) && forall|j: int| 0 <= j < k ==> !is_gap(s, j)
}

/// Eight groups, of which `::` may leave out one or more that are zero.
pub open spec fn ipv6(s: Seq<char>) -> Option<Seq<u16>> {
    if has_gap(s) {
        let k = gap(s);
        match (
            run_of_groups(s.subrange(0, k), false),
            run_of_groups(s.subrange(k + 2, s.len() as int), true),
        ) {
            (Some(head), Some(tail)) => if head.len() + tail.len() <= 7 {
                Some(head + Seq::new((8 - head.len() - tail.len()) as nat, |i: int| 0u16) + tail)
            } else {
                None
            },
            _ => None,
        }
    } else {
        match run_of_groups(s, true) {
            Some(all) => if all.len() == 8 {
                Some(all)
            } else {
                None
            },
            None => None,
        }
    }
}

/// The address that a text denotes.
pub open spec fn address(s: Seq<char>) -> Option<AddressView> {
    if ipv4(s) is Some {
        Some(AddressView::V4(ipv4(s)->0))
    } else if ipv6(s) is Some {
        Some(AddressView::V6(ipv6(s)->0))
    } else {
        None
    }
}

// ---------------------------------------------------------------------------
// Reading
// ---------------------------------------------------------------------------

fn read_octet(chars: &Vec<char>) -> (r: Option<u16>)
    ensures
        r == octet(chars@),
{
    if chars.len() < 1 || chars.len() > 3 {
        return None;
    }
    assert(chars@.subrange(0, chars@.len() as int) =~= chars@);
    match number::run_of_digits(chars, 0, 255) {
        Some(n) => {
            if chars.len() > 1 && chars[0] == '0' {
                None
            } else {
                Some(n as u16)
            }
        },
        None => None,
    }
}

fn read_hex_digit(c: char) -> (r: Option<u32>)
    ensures
        match r {
            Some(d) => hex_value(c) == Some(d as nat) && d < 16,
            None => hex_value(c) is None,
        },
{
    if '0' <= c && c <= '9' {
        Some(c as u32 - 48)
    } else if 'a' <= c && c <= 'f' {
        Some(c as u32 - 87)
    } else if 'A' <= c && c <= 'F' {
        Some(c as u32 - 55)
    } else {
        None
    }
}

proof fn lemma_hex_number_prefix(s: Seq<char>, i: int)
    requires
        0 <= i <= s.len(),
        hex_number(s.take(i)) is None,
    ensures
        hex_number(s) is None,
    decreases s.len() - i,
{
    if i < s.len() {
        assert(s.take(i + 1).drop_last() =~= s.take(i));
        lemma_hex_number_prefix(s, i + 1);
    } else {
        assert(s.take(i) =~= s);
    }
}

fn read_group(chars: &Vec<char>) -> (r: Option<u16>)
    ensures
        r == group(chars@),
{
    if chars.len() < 1 || chars.len() > 4 {
        return None;
    }
    let mut value: u32 = 0;
    let mut i: usize = 0;
    while i < chars.len()
        invariant
            i <= chars@.len() <= 4,
            hex_number(chars@.take(i as int)) == Some(value as nat),
            i == 0 ==> value == 0,
            i == 1 ==> value < 0x10,
            i == 2 ==> value < 0x100,
            i == 3 ==> value < 0x1000,
            i == 4 ==> value < 0x10000,
        decreases chars@.len() - i,
    {
        assert(chars@.take(i + 1).drop_last() =~= chars@.take(i as int));
        match read_hex_digit(chars[i]) {
            Some(d) => {
                value = value * 16 + d;
            },
            None => {
                proof {
                    lemma_hex_number_prefix(chars@, i + 1);
                }
                return None;
            },
        }
        i = i + 1;
    }
    assert(chars@.take(i as int) =~= chars@);
    Some(value as u16)
}

proof fn lemma_groups_prefix(parts: Seq<Seq<char>>, i: int)
    requires
        0 <= i <= parts.len(),
        groups(parts.take(i)) is None,
    ensures
        groups(parts) is None,
    decreases parts.len() - i,
{
    if i < parts.len() {
        assert(parts.take(i + 1).drop_last() =~= parts.take(i));
        lemma_groups_prefix(parts, i + 1);
    } else {
        assert(parts.take(i) =~= parts);
    }
}

proof fn lemma_octets_prefix(parts: Seq<Seq<char>>, i: int)
    requires
        0 <= i <= parts.len(),
        octets(parts.take(i)) is None,
    ensures
        octets(parts) is None,
    decreases parts.len() - i,
{
    if i < parts.len() {
        assert(parts.take(i + 1).drop_last() =~= parts.take(i));
        lemma_octets_prefix(parts, i + 1);
    } else {
        assert(parts.take(i) =~= parts);
    }
}

/// An octet has a value of at most 255.
proof fn lemma_octets_small(parts: Seq<Seq<char>>)
    requires
        octets(parts) is Some,
    ensures
        octets(parts)->0.len() == parts.len(),
        forall|i: int| 0 <= i < parts.len() ==> #[trigger] octets(parts)->0[i] <= 255,
    decreases parts.len(),
{
    if parts.len() > 0 {
        lemma_octets_small(parts.drop_last());
    }
}

fn read_ipv4(chars: &Vec<char>, from: usize, to: usize) -> (r: Option<Vec<u16>>)
    requires
        from <= to <= chars@.len(),
    ensures
        match r {
            Some(o) => ipv4(chars@.subrange(from as int, to as int)) == Some(o@) && o@.len() == 4
                && forall|i: int| 0 <= i < 4 ==> #[trigger] o@[i] <= 255,
            None => ipv4(chars@.subrange(from as int, to as int)) is None,
        },
{
    let parts = text::split(chars, from, to, '.');
    let ghost p = text::inner(parts@);
    if parts.len() != 4 {
        return None;
    }
    let mut out: Vec<u16> = Vec::new();
    let mut i: usize = 0;
    assert(p.take(0) =~= Seq::<Seq<char>>::empty());
    while i < 4
        invariant
            i <= 4,
            parts@.len() == 4,
            from <= to <= chars@.len(),
            p == text::inner(parts@),
            p == text::fields(chars@.subrange(from as int, to as int), '.'),
            octets(p.take(i as int)) == Some(out@),
        decreases 4 - i,
    {
        assert(p.take(i + 1).drop_last() =~= p.take(i as int));
        assert(p[i as int] == parts@[i as int]@);
        match read_octet(&parts[i]) {
            Some(o) => {
                out.push(o);
            },
            None => {
                proof {
                    lemma_octets_prefix(p, i + 1);
                }
                return None;
            },
        }
        i = i + 1;
    }
    assert(p.take(4) =~= p);
    proof {
        lemma_octets_small(p);
    }
    Some(out)
}

fn read_groups(parts: &Vec<Vec<char>>, count: usize) -> (r: Option<Vec<u16>>)
    requires
        count <= parts@.len(),
    ensures
        match r {
            Some(g) => groups(text::inner(parts@).take(count as int)) == Some(g@),
            None => groups(text::inner(parts@).take(count as int)) is None,
        },
{
    let ghost p = text::inner(parts@).take(count as int);
    let mut out: Vec<u16> = Vec::new();
    let mut i: usize = 0;
    assert(p.take(0) =~= Seq::<Seq<char>>::empty());
    while i < count
        invariant
            i <= count <= parts@.len(),
            p == text::inner(parts@).take(count as int),
            groups(p.take(i as int)) == Some(out@),
        decreases count - i,
    {
        assert(p.take(i + 1).drop_last() =~= p.take(i as int));
        assert(p[i as int] == parts@[i as int]@);
        match read_group(&parts[i]) {
            Some(g) => {
                out.push(g);
            },
            None => {
                proof {
                    lemma_groups_prefix(p, i + 1);
                }
                return None;
            },
        }
        i = i + 1;
    }
    assert(p.take(i as int) =~= p);
    Some(out)
}

proof fn lemma_fields_nonempty(s: Seq<char>, separator: char)
    ensures
        text::fields(s, separator).len() > 0,
    decreases s.len(),
{
    if s.len() > 0 {
        lemma_fields_nonempty(s.drop_last(), separator);
    }
}

fn read_run(chars: &Vec<char>, from: usize, to: usize, embeds: bool) -> (r: Option<Vec<u16>>)
    requires
        from <= to <= chars@.len(),
    ensures
        match r {
            Some(g) => run_of_groups(chars@.subrange(from as int, to as int), embeds) == Some(g@),
            None => run_of_groups(chars@.subrange(from as int, to as int), embeds) is None,
        },
{
    let ghost s = chars@.subrange(from as int, to as int);
    if from == to {
        let none: Vec<u16> = Vec::new();
        assert(none@ =~= Seq::<u16>::empty());
        return Some(none);
    }
    let parts = text::split(chars, from, to, ':');
    let ghost p = text::inner(parts@);
    proof {
        lemma_fields_nonempty(s, ':');
    }
    let last: usize = parts.len() - 1;
    assert(p.last() == parts@[last as int]@);
    if embeds {
        let field = &parts[last];
        assert(field@.subrange(0, field@.len() as int) =~= field@);
        match read_ipv4(field, 0, field.len()) {
            Some(o) => {
                assert(p.take(last as int) =~= p.drop_last());
                return match read_groups(&parts, last) {
                    Some(before) => {
                        let mut out = before;
                        let ghost b = out@;
                        let high: u16 = o[0] * 256 + o[1];
                        let low: u16 = o[2] * 256 + o[3];
                        out.push(high);
                        out.push(low);
                        assert(out@ =~= b + paired(o@));
                        Some(out)
                    },
                    None => None,
                };
            },
            None => {},
        }
    }
    assert(p.take(parts@.len() as int) =~= p);
    read_groups(&parts, parts.len())
}

/// The place of the first `::`, if there is one.
fn find_gap(chars: &Vec<char>) -> (r: Option<usize>)
    ensures
        match r {
            Some(k) => has_gap(chars@) && gap(chars@) == k && k + 2 <= chars@.len(),
            None => !has_gap(chars@),
        },
{
    let mut k: usize = 0;
    let limit: usize = if chars.len() == 0 {
        0
    } else {
        chars.len() - 1
    };
    while k < limit
        invariant
            k <= limit,
            limit == chars@.len() - 1 || (limit == 0 && chars@.len() == 0),
            forall|j: int| 0 <= j < k ==> !is_gap(chars@, j),
        decreases limit - k,
    {
        if chars[k] == ':' && chars[k + 1] == ':' {
            assert(is_gap(chars@, k as int));
            proof {
                let g = gap(chars@);
                assert(is_gap(chars@, g) && forall|j: int| 0 <= j < g ==> !is_gap(chars@, j));
                if g < k {
                    assert(!is_gap(chars@, g));
                }
                if g > k {
                    assert(!is_gap(chars@, k as int));
                }
            }
            return Some(k);
        }
        k = k + 1;
    }
    assert forall|j: int| !is_gap(chars@, j) by {
        if j >= k {
            assert(j + 1 >= chars@.len());
        }
    }
    None
}

/// Eight groups: the head, zeros, the tail.
fn fill(head: Vec<u16>, tail: &Vec<u16>) -> (r: Vec<u16>)
    requires
        head@.len() + tail@.len() <= 7,
    ensures
        r@ == head@ + Seq::new((8 - head@.len() - tail@.len()) as nat, |i: int| 0u16) + tail@,
        r@.len() == 8,
{
    let zeros: usize = 8 - head.len() - tail.len();
    let ghost h = head@;
    let mut out = head;
    let mut i: usize = 0;
    assert(out@ =~= h + Seq::new(0, |i: int| 0u16));
    while i < zeros
        invariant
            i <= zeros,
            out@ == h + Seq::new(i as nat, |i: int| 0u16),
        decreases zeros - i,
    {
        out.push(0);
        i = i + 1;
        assert(out@ =~= h + Seq::new(i as nat, |i: int| 0u16));
    }
    let ghost padded = out@;
    i = 0;
    assert(out@ =~= padded + tail@.take(0));
    while i < tail.len()
        invariant
            i <= tail@.len(),
            out@ == padded + tail@.take(i as int),
        decreases tail@.len() - i,
    {
        out.push(tail[i]);
        i = i + 1;
        assert(out@ =~= padded + tail@.take(i as int));
    }
    assert(tail@.take(i as int) =~= tail@);
    out
}

fn read_ipv6(chars: &Vec<char>) -> (r: Option<Vec<u16>>)
    ensures
        match r {
            Some(g) => ipv6(chars@) == Some(g@) && g@.len() == 8,
            None => ipv6(chars@) is None,
        },
{
    match find_gap(chars) {
        Some(k) => {
            let head = match read_run(chars, 0, k, false) {
                Some(g) => g,
                None => {
                    return None;
                },
            };
            let end: usize = chars.len();
            let tail = match read_run(chars, k + 2, end, true) {
                Some(g) => g,
                None => {
                    return None;
                },
            };
            if head.len() > 7 || tail.len() > 7 - head.len() {
                return None;
            }
            let out = fill(head, &tail);
            Some(out)
        },
        None => {
            assert(chars@.subrange(0, chars@.len() as int) =~= chars@);
            match read_run(chars, 0, chars.len(), true) {
                Some(all) => {
                    if all.len() == 8 {
                        Some(all)
                    } else {
                        None
                    }
                },
                None => None,
            }
        },
    }
}

/// The address that the text denotes.
pub fn parse_address(s: &str) -> (r: Option<Address>)
    ensures
        match r {
            Some(a) => address(s@) == Some(a@),
            None => address(s@) is None,
        },
{
    let chars = text::chars_of(s);
    assert(chars@.subrange(0, chars@.len() as int) =~= chars@);
    match read_ipv4(&chars, 0, chars.len()) {
        Some(octets) => Some(Address::V4(octets)),
        None => match read_ipv6(&chars) {
            Some(groups) => Some(Address::V6(groups)),
            None => None,
        },
    }
}

impl Address {
    /// Whether the address is `127.x.x.x` or `::1`.
    pub fn is_loopback(&self) -> (r: bool)
        ensures
            r == self@.is_loopback(),
    {
        match self {
            Address::V4(octets) => octets.len() > 0 && octets[0] == 127,
            Address::V6(groups) => {
                let one: Vec<u16> = vec![0, 0, 0, 0, 0, 0, 0, 1];
                if groups.len() != 8 {
                    return false;
                }
                let mut i: usize = 0;
                while i < 8
                    invariant
                        i <= 8,
                        groups@.len() == 8,
                        self@ == AddressView::V6(groups@),
                        one@ == seq![0u16, 0, 0, 0, 0, 0, 0, 1],
                        forall|k: int| 0 <= k < i ==> groups@[k] == one@[k],
                    decreases 8 - i,
                {
                    if groups[i] != one[i] {
                        assert(groups@[i as int] != one@[i as int]);
                        return false;
                    }
                    i = i + 1;
                }
                assert(groups@ =~= one@);
                true
            },
        }
    }
}

// ---------------------------------------------------------------------------
// Laws
// ---------------------------------------------------------------------------

/// Four numbers up to 255 in decimal notation with dots between them are an address, and it holds
/// these numbers; it is this machine's where the first is 127.
pub proof fn law_dotted_numbers_are_an_address(a: u16, b: u16, c: u16, d: u16)
    requires
        a <= 255 && b <= 255 && c <= 255 && d <= 255,
    ensures
        ({
            let s = text::joined(
                seq![
                    number::decimal(a as int),
                    number::decimal(b as int),
                    number::decimal(c as int),
                    number::decimal(d as int),
                ],
                '.',
            );
            &&& ipv4(s) == Some(seq![a, b, c, d])
            &&& address(s) == Some(AddressView::V4(seq![a, b, c, d]))
            &&& address(s)->0.is_loopback() == (a == 127)
        }),
{
    let parts = seq![
        number::decimal(a as int),
        number::decimal(b as int),
        number::decimal(c as int),
        number::decimal(d as int),
    ];
    let s = text::joined(parts, '.');
    lemma_octet_reads_back(a);
    lemma_octet_reads_back(b);
    lemma_octet_reads_back(c);
    lemma_octet_reads_back(d);
    text::law_joined_fields_come_apart(parts, '.');
    let none = Seq::<Seq<char>>::empty();
    let p1 = none.push(parts[0]);
    let p2 = p1.push(parts[1]);
    let p3 = p2.push(parts[2]);
    assert(p1.drop_last() =~= none);
    assert(p2.drop_last() =~= p1);
    assert(p3.drop_last() =~= p2);
    assert(parts.drop_last() =~= p3);
    assert(octets(none) == Some(Seq::<u16>::empty()));
    assert(octets(p1) == Some(Seq::<u16>::empty().push(a)));
    assert(octets(p2) == Some(Seq::<u16>::empty().push(a).push(b)));
    assert(octets(p3) == Some(Seq::<u16>::empty().push(a).push(b).push(c)));
    assert(Seq::<u16>::empty().push(a).push(b).push(c).push(d) =~= seq![a, b, c, d]);
}

proof fn lemma_octet_reads_back(n: u16)
    requires
        n <= 255,
    ensures
        octet(number::decimal(n as int)) == Some(n),
        !number::decimal(n as int).contains('.'),
{
    let s = number::decimal(n as int);
    number::lemma_digits_denote(n as nat);
    number::law_decimal_is_the_shortest(n as int);
    reveal_with_fuel(number::digits, 4);
    assert(s.len() <= 3);
    assert forall|i: int| 0 <= i < s.len() implies s[i] != '.' by {
        assert(text::is_digit(s[i]));
    }
}

/// Nothing else is such an address: where four numbers are read, each is at most 255, and the text
/// is their decimal notation with dots between them.
pub proof fn law_addresses_are_dotted_numbers(s: Seq<char>)
    requires
        ipv4(s) is Some,
    ensures
        ipv4(s)->0.len() == 4,
        forall|i: int| 0 <= i < 4 ==> #[trigger] ipv4(s)->0[i] <= 255,
        s == text::joined(
            Seq::new(4, |i: int| number::decimal(ipv4(s)->0[i] as int)),
            '.',
        ),
{
    let parts = text::fields(s, '.');
    let found = ipv4(s)->0;
    text::law_fields_make_up_the_text(s, '.');
    lemma_octets_are_decimals(parts);
    assert(parts =~= Seq::new(4, |i: int| number::decimal(found[i] as int)));
}

proof fn lemma_octets_are_decimals(parts: Seq<Seq<char>>)
    requires
        octets(parts) is Some,
    ensures
        octets(parts)->0.len() == parts.len(),
        forall|i: int|
            0 <= i < parts.len() ==> #[trigger] octets(parts)->0[i] <= 255 && parts[i]
                == number::decimal(octets(parts)->0[i] as int),
    decreases parts.len(),
{
    if parts.len() > 0 {
        let before = parts.drop_last();
        lemma_octets_are_decimals(before);
        lemma_shortest_is_decimal(parts.last());
        assert forall|i: int| 0 <= i < parts.len() implies #[trigger] octets(parts)->0[i] <= 255
            && parts[i] == number::decimal(octets(parts)->0[i] as int) by {
            if i < before.len() {
                assert(octets(parts)->0[i] == octets(before)->0[i]);
                assert(before[i] == parts[i]);
            }
        }
    }
}

/// Digits without a zero before them are the notation of their number.
proof fn lemma_shortest_is_decimal(s: Seq<char>)
    requires
        s.len() > 0,
        number::all_digits(s),
        s.len() == 1 || s[0] != '0',
    ensures
        s == number::digits(number::digits_value(s)),
        s[0] != '0' ==> number::digits_value(s) > 0,
    decreases s.len(),
{
    let last = s.last();
    assert(text::is_digit(s[s.len() - 1]));
    let low = number::digit_value(last);
    assert(number::digit_char(low) == last);
    let head = s.drop_last();
    if s.len() == 1 {
        reveal_with_fuel(number::digits_value, 2);
        assert(head.len() == 0);
        assert(number::digits(low) =~= s);
    } else {
        assert forall|i: int| 0 <= i < head.len() implies text::is_digit(#[trigger] head[i]) by {
            assert(head[i] == s[i]);
        }
        assert(head[0] == s[0]);
        lemma_shortest_is_decimal(head);
        let high = number::digits_value(head);
        let n = number::digits_value(s);
        assert(n == high * 10 + low);
        assert(n / 10 == high && n % 10 == low);
        assert(head.push(last) =~= s);
    }
}

/// Eight groups of one to four hexadecimal digits with colons between them are an address, and it
/// holds the numbers of these groups.
pub proof fn law_eight_groups_are_an_address(parts: Seq<Seq<char>>)
    requires
        parts.len() == 8,
        forall|i: int| 0 <= i < 8 ==> group(#[trigger] parts[i]) is Some,
    ensures
        ({
            let s = text::joined(parts, ':');
            &&& ipv6(s) is Some
            &&& ipv6(s)->0.len() == 8
            &&& forall|i: int| 0 <= i < 8 ==> #[trigger] ipv6(s)->0[i] == group(parts[i])->0
        }),
{
    let s = text::joined(parts, ':');
    assert forall|i: int| 0 <= i < 8 implies !(#[trigger] parts[i]).contains(':')
        && !parts[i].contains('.') && parts[i].len() > 0 by {
        lemma_hex_is_plain(parts[i]);
    }
    text::law_joined_fields_come_apart(parts, ':');
    lemma_groups_read(parts);
    assert(s.len() > 0) by {
        if s.len() == 0 {
            assert(text::fields(s, ':').len() == 1);
        }
    }
    assert(parts.last() == parts[7]);
    assert(ipv4(parts.last()) is None) by {
        let last = parts[7];
        let one = seq![last];
        text::law_joined_fields_come_apart(one, '.');
    }
    if has_gap(s) {
        let k = choose|k: int| is_gap(s, k);
        lemma_gap_makes_an_empty_field(s, k);
        let i = choose|i: int|
            0 <= i < text::fields(s, ':').len() && (#[trigger] text::fields(s, ':')[i]).len() == 0;
        assert(parts[i].len() > 0);
    }
}

proof fn lemma_hex_is_plain(s: Seq<char>)
    requires
        hex_number(s) is Some,
    ensures
        !s.contains(':'),
        !s.contains('.'),
    decreases s.len(),
{
    if s.len() > 0 {
        let head = s.drop_last();
        lemma_hex_is_plain(head);
        assert forall|i: int| 0 <= i < s.len() implies s[i] != ':' && s[i] != '.' by {
            if i < head.len() {
                assert(head[i] == s[i]);
                assert(head.contains(head[i]));
            }
        }
    }
}

proof fn lemma_groups_read(parts: Seq<Seq<char>>)
    requires
        forall|i: int| 0 <= i < parts.len() ==> group(#[trigger] parts[i]) is Some,
    ensures
        groups(parts) is Some,
        groups(parts)->0.len() == parts.len(),
        forall|i: int|
            0 <= i < parts.len() ==> #[trigger] groups(parts)->0[i] == group(parts[i])->0,
    decreases parts.len(),
{
    if parts.len() > 0 {
        let before = parts.drop_last();
        assert forall|i: int| 0 <= i < before.len() implies group(#[trigger] before[i]) is Some by {
            assert(before[i] == parts[i]);
        }
        assert(group(parts[parts.len() - 1]) is Some);
        lemma_groups_read(before);
        assert forall|i: int| 0 <= i < parts.len() implies #[trigger] groups(parts)->0[i] == group(
            parts[i],
        )->0 by {
            if i < before.len() {
                assert(groups(parts)->0[i] == groups(before)->0[i]);
                assert(before[i] == parts[i]);
            }
        }
    }
}

/// Two separators next to each other leave an empty field between them.
proof fn lemma_gap_makes_an_empty_field(s: Seq<char>, k: int)
    requires
        is_gap(s, k),
    ensures
        exists|i: int|
            0 <= i < text::fields(s, ':').len() - 1 && (#[trigger] text::fields(s, ':')[i]).len()
                == 0,
    decreases s.len(),
{
    let head = s.drop_last();
    let before = text::fields(head, ':');
    let all = text::fields(s, ':');
    text::law_fields_make_up_the_text(head, ':');
    if k == s.len() - 2 {
        assert(head.last() == ':');
        assert(before.last().len() == 0);
        let i = before.len() - 1;
        assert(all[i] == before[i]);
        assert(all[i].len() == 0);
    } else {
        assert(is_gap(head, k));
        lemma_gap_makes_an_empty_field(head, k);
        let i = choose|i: int|
            0 <= i < before.len() - 1 && (#[trigger] before[i]).len() == 0;
        assert(all[i] == before[i]);
        assert(all[i].len() == 0);
    }
}

/// A hexadecimal digit counts sixteen times the next, in either case, and a group is less than two
/// to the power of sixteen.
pub proof fn law_hexadecimal_groups(s: Seq<char>, c: char)
    ensures
        '0' <= c <= '9' ==> hex_value(c) == Some((c as u32 - '0' as u32) as nat),
        'a' <= c <= 'f' ==> hex_value(c) == Some((c as u32 - 'a' as u32 + 10) as nat),
        'A' <= c <= 'F' ==> hex_value(c) == Some((c as u32 - 'A' as u32 + 10) as nat),
        !('0' <= c <= '9') && !('a' <= c <= 'f') && !('A' <= c <= 'F') ==> hex_value(c) is None,
        hex_number(s) is Some && hex_value(c) is Some ==> hex_number(s.push(c)) == Some(
            16 * hex_number(s)->0 + hex_value(c)->0,
        ),
        group(s) is Some ==> 1 <= s.len() <= 4 && group(s)->0 == hex_number(s)->0,
{
    assert(s.push(c).drop_last() =~= s);
    if group(s) is Some {
        lemma_hex_bound(s);
    }
}

proof fn lemma_hex_bound(s: Seq<char>)
    requires
        s.len() <= 4,
        hex_number(s) is Some,
    ensures
        hex_number(s)->0 < 65_536,
{
    reveal_with_fuel(hex_number, 5);
}

/// Of the addresses of eight groups only the one with seven zeros and a one is this machine's.
pub proof fn law_loopback_of_eight_groups(groups: Seq<u16>)
    requires
        groups.len() == 8,
    ensures
        AddressView::V6(groups).is_loopback() == (groups[7] == 1 && forall|i: int|
            0 <= i < 7 ==> #[trigger] groups[i] == 0),
{
    if groups[7] == 1 && (forall|i: int| 0 <= i < 7 ==> #[trigger] groups[i] == 0) {
        assert(groups =~= seq![0u16, 0, 0, 0, 0, 0, 0, 1]);
    }
}

/// Two colons next to each other stand for as many groups of zero as are missing: what is before
/// them comes first, what is behind them comes last, and there are eight groups in all.
pub proof fn law_gap_stands_for_zeros(head: Seq<Seq<char>>, tail: Seq<Seq<char>>)
    requires
        head.len() + tail.len() <= 7,
        forall|i: int| 0 <= i < head.len() ==> group(#[trigger] head[i]) is Some,
        forall|i: int| 0 <= i < tail.len() ==> group(#[trigger] tail[i]) is Some,
    ensures
        ({
            let s = text::joined(head, ':') + seq![':', ':'] + text::joined(tail, ':');
            &&& ipv6(s) is Some
            &&& ipv6(s)->0.len() == 8
            &&& forall|i: int|
                0 <= i < 8 ==> #[trigger] ipv6(s)->0[i] == (if i < head.len() {
                    group(head[i])->0
                } else if i < 8 - tail.len() {
                    0u16
                } else {
                    group(tail[i - (8 - tail.len())])->0
                })
        }),
{
    let h = text::joined(head, ':');
    let t = text::joined(tail, ':');
    let s = h + seq![':', ':'] + t;
    lemma_run_of_groups(head, false);
    lemma_run_of_groups(tail, true);
    lemma_gap_is_behind_the_head(head, t);
    let a = run_of_groups(h, false)->0;
    let b = run_of_groups(t, true)->0;
    let zeros = Seq::new((8 - a.len() - b.len()) as nat, |i: int| 0u16);
    assert(ipv6(s) == Some(a + zeros + b));
}

/// Groups hold no gap and end with no colon, so the first gap is behind them.
proof fn lemma_gap_is_behind_the_head(head: Seq<Seq<char>>, t: Seq<char>)
    requires
        forall|i: int| 0 <= i < head.len() ==> group(#[trigger] head[i]) is Some,
    ensures
        ({
            let h = text::joined(head, ':');
            let s = h + seq![':', ':'] + t;
            &&& has_gap(s)
            &&& gap(s) == h.len()
            &&& s.subrange(0, gap(s)) == h
            &&& s.subrange(gap(s) + 2, s.len() as int) == t
        }),
{
    let h = text::joined(head, ':');
    let s = h + seq![':', ':'] + t;
    let k = h.len() as int;
    lemma_run_of_groups(head, false);
    assert(is_gap(s, k));
    assert forall|j: int| 0 <= j < k implies !is_gap(s, j) by {
        if is_gap(s, j) {
            if j + 1 < k {
                assert(is_gap(h, j));
                lemma_gap_makes_an_empty_field(h, j);
                let i = choose|i: int|
                    0 <= i < text::fields(h, ':').len() - 1 && (#[trigger] text::fields(
                        h,
                        ':',
                    )[i]).len() == 0;
                assert(group(head[i]) is Some);
            } else {
                assert(s[j] == h.last());
            }
        }
    }
    let g = gap(s);
    assert(is_gap(s, g) && forall|j: int| 0 <= j < g ==> !is_gap(s, j));
    assert(g == k);
    assert(s.subrange(0, k) =~= h);
    assert(s.subrange(k + 2, s.len() as int) =~= t);
}

proof fn lemma_run_of_groups(parts: Seq<Seq<char>>, embeds: bool)
    requires
        forall|i: int| 0 <= i < parts.len() ==> group(#[trigger] parts[i]) is Some,
    ensures
        ({
            let s = text::joined(parts, ':');
            &&& run_of_groups(s, embeds) is Some
            &&& run_of_groups(s, embeds)->0.len() == parts.len()
            &&& forall|i: int|
                0 <= i < parts.len() ==> #[trigger] run_of_groups(s, embeds)->0[i] == group(
                    parts[i],
                )->0
            &&& parts.len() > 0 ==> s.len() > 0 && s.last() != ':' && text::fields(s, ':') == parts
            &&& parts.len() == 0 ==> s.len() == 0
        }),
{
    let s = text::joined(parts, ':');
    if parts.len() > 0 {
        assert forall|i: int| 0 <= i < parts.len() implies !(#[trigger] parts[i]).contains(':')
            && !parts[i].contains('.') && parts[i].len() > 0 by {
            lemma_hex_is_plain(parts[i]);
        }
        text::law_joined_fields_come_apart(parts, ':');
        lemma_groups_read(parts);
        let last = parts[parts.len() - 1];
        assert(s.len() > 0 && s.last() == last.last());
        assert(last.contains(last.last()));
        text::law_joined_fields_come_apart(seq![last], '.');
    }
}

} // verus!
