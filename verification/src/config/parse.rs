//! What a host name is, and how a value from the environment is read.

use vstd::prelude::*;

use crate::client::sql;
use crate::ip;
use crate::number;
use crate::text;

verus! {

// ---------------------------------------------------------------------------
// Hosts
// ---------------------------------------------------------------------------

/// A text without the brackets around it, where it has both.
pub open spec fn unbracketed(host: Seq<char>) -> Seq<char> {
    if host.len() >= 2 && host[0] == '[' && host.last() == ']' {
        host.subrange(1, host.len() - 1)
    } else {
        host
    }
}

/// A character that no host holds: it would make the host a URL, credentials or a path.
pub open spec fn is_foreign(c: char) -> bool {
    c == '@' || c == '/' || c == '\\' || c == '?' || c == '#' || text::is_space(c)
}

/// A character of a host name.
pub open spec fn names_host(c: char) -> bool {
    text::is_alphanumeric(c) || c == '.' || c == '-'
}

/// A host name, an IPv4 address, or an IPv6 address with or without brackets.
pub open spec fn is_host(host: Seq<char>) -> bool {
    &&& host.len() > 0
    &&& forall|i: int| 0 <= i < host.len() ==> !is_foreign(#[trigger] host[i])
    &&& if unbracketed(host).contains(':') {
        ip::address(unbracketed(host)) is Some
    } else {
        forall|i: int| 0 <= i < unbracketed(host).len() ==> names_host(#[trigger] unbracketed(host)[i])
    }
}

/// `localhost`, in any case and with or without a final dot, or a loopback address.
pub open spec fn is_loopback(host: Seq<char>) -> bool {
    let name = text::lowered(unbracketed(host));
    ||| name == "localhost"@
    ||| name == "localhost."@
    ||| (ip::address(unbracketed(host)) is Some && ip::address(
        unbracketed(host),
    )->0.is_loopback())
}

/// A host as a URL holds it: an IPv6 address in brackets.
pub open spec fn url_form(host: Seq<char>) -> Seq<char> {
    if (host.len() > 0 && host[0] == '[') || !host.contains(':') {
        host
    } else {
        "["@ + host + "]"@
    }
}

/// The text without the brackets around it, where it has both.
fn unbracket(host: &str) -> (r: String)
    ensures
        r@ == unbracketed(host@),
{
    let chars = text::chars_of(host);
    let n: usize = chars.len();
    if n >= 2 && chars[0] == '[' && chars[n - 1] == ']' {
        text::text_of(&chars, 1, n - 1)
    } else {
        String::from(host)
    }
}

/// Whether the host is this machine.
pub fn host_is_loopback(host: &str) -> (r: bool)
    ensures
        r == is_loopback(host@),
{
    let inner = unbracket(host);
    let name = text::lowercase(inner.as_str());
    if text::same(name.as_str(), "localhost") || text::same(name.as_str(), "localhost.") {
        return true;
    }
    match ip::parse_address(inner.as_str()) {
        Some(address) => address.is_loopback(),
        None => false,
    }
}

/// Whether the text is a host and nothing but a host: no URL, no credentials, no path.
pub fn valid_host(host: &str) -> (r: bool)
    ensures
        r == is_host(host@),
{
    let chars = text::chars_of(host);
    if chars.len() == 0 {
        return false;
    }
    let mut i: usize = 0;
    while i < chars.len()
        invariant
            i <= chars@.len(),
            chars@ == host@,
            forall|k: int| 0 <= k < i ==> !is_foreign(#[trigger] chars@[k]),
        decreases chars@.len() - i,
    {
        let c = chars[i];
        if c == '@' || c == '/' || c == '\\' || c == '?' || c == '#' || text::space(c) {
            assert(is_foreign(host@[i as int]));
            return false;
        }
        i = i + 1;
    }
    let inner = unbracket(host);
    if text::has_char(inner.as_str(), ':') {
        return ip::parse_address(inner.as_str()).is_some();
    }
    let name = text::chars_of(inner.as_str());
    let mut j: usize = 0;
    while j < name.len()
        invariant
            j <= name@.len(),
            name@ == unbracketed(host@),
            !unbracketed(host@).contains(':'),
            forall|k: int| 0 <= k < j ==> names_host(#[trigger] name@[k]),
        decreases name@.len() - j,
    {
        let c = name[j];
        if !(text::alphanumeric(c) || c == '.' || c == '-') {
            assert(!names_host(unbracketed(host@)[j as int]));
            return false;
        }
        j = j + 1;
    }
    true
}

/// Whether the text is an SQL identifier: a letter or an underscore, followed by letters, digits
/// and underscores, of at most 192 bytes.
pub fn valid_ident(value: &str) -> (r: bool)
    ensures
        r == (sql::ident_fault(value@) is None),
{
    sql::validate_ident(value).is_ok()
}

/// The host as a URL holds it.
pub fn url_host(host: &str) -> (r: String)
    ensures
        r@ == url_form(host@),
{
    let chars = text::chars_of(host);
    if (chars.len() > 0 && chars[0] == '[') || !text::has_char(host, ':') {
        String::from(host)
    } else {
        let mut out = String::from("[");
        text::push_text(&mut out, host);
        text::push_text(&mut out, "]");
        out
    }
}

// ---------------------------------------------------------------------------
// Values from the environment
// ---------------------------------------------------------------------------

/// How a value was read: not there, there, or there and not valid.
pub enum Reading<V> {
    Absent,
    Value(V),
    Fault,
}

/// A value that is there and not empty.
pub open spec fn non_empty(value: Option<Seq<char>>) -> Option<Seq<char>> {
    match value {
        Some(s) => if s.len() > 0 {
            Some(s)
        } else {
            None
        },
        None => None,
    }
}

/// A value that is there and not blank, without the white space at its ends.
pub open spec fn non_blank(value: Option<Seq<char>>) -> Option<Seq<char>> {
    match value {
        Some(s) => non_empty(Some(text::trimmed(s))),
        None => None,
    }
}

/// A number of at most `max`; a blank value counts as absent.
pub open spec fn number_reading(value: Option<Seq<char>>, max: nat) -> Reading<nat> {
    match non_blank(value) {
        None => Reading::Absent,
        Some(s) => match number::unsigned(s, max) {
            Some(n) => Reading::Value(n),
            None => Reading::Fault,
        },
    }
}

/// A truth value: `1`, `true`, `yes`, `on`, `0`, `false`, `no`, `off` in any case; a blank value
/// counts as absent.
pub open spec fn bool_reading(value: Option<Seq<char>>) -> Reading<bool> {
    match non_blank(value) {
        None => Reading::Absent,
        Some(s) => {
            let word = text::lowered(s);
            if word == "1"@ || word == "true"@ || word == "yes"@ || word == "on"@ {
                Reading::Value(true)
            } else if word == "0"@ || word == "false"@ || word == "no"@ || word == "off"@ {
                Reading::Value(false)
            } else {
                Reading::Fault
            }
        },
    }
}

/// The entries of a list with commas between them, without white space around them and without
/// the blank ones.
pub open spec fn list_entries(fields: Seq<Seq<char>>) -> Seq<Seq<char>>
    decreases fields.len(),
{
    if fields.len() == 0 {
        Seq::empty()
    } else {
        let before = list_entries(fields.drop_last());
        let entry = text::trimmed(fields.last());
        if entry.len() > 0 {
            before.push(entry)
        } else {
            before
        }
    }
}

/// The view of an optional string.
pub open spec fn optional(value: Option<String>) -> Option<Seq<char>> {
    match value {
        Some(s) => Some(s@),
        None => None,
    }
}

/// The value where it is there and not empty.
pub fn env_non_empty(value: &Option<String>) -> (r: Option<String>)
    ensures
        optional(r) == non_empty(optional(*value)),
{
    match value {
        Some(s) => {
            if s.as_str().is_empty() {
                None
            } else {
                Some(s.clone())
            }
        },
        None => None,
    }
}

/// The value without the white space at its ends, where it is there and not blank.
pub fn env_trimmed(value: &Option<String>) -> (r: Option<String>)
    ensures
        optional(r) == non_blank(optional(*value)),
{
    match value {
        Some(s) => {
            let t = text::trim(s.as_str());
            if t.as_str().is_empty() {
                None
            } else {
                Some(t)
            }
        },
        None => None,
    }
}

/// The value as a number of at most `max`.
pub fn env_parsed(value: &Option<String>, max: u64) -> (r: Reading<u64>)
    ensures
        match r {
            Reading::Absent => number_reading(optional(*value), max as nat) == Reading::<
                nat,
            >::Absent,
            Reading::Value(n) => number_reading(optional(*value), max as nat) == Reading::Value(
                n as nat,
            ) && n <= max,
            Reading::Fault => number_reading(optional(*value), max as nat) == Reading::<
                nat,
            >::Fault,
        },
{
    match env_trimmed(value) {
        None => Reading::Absent,
        Some(s) => match number::parse_unsigned(s.as_str(), max) {
            Some(n) => Reading::Value(n),
            None => Reading::Fault,
        },
    }
}

/// The value as a truth value.
pub fn env_bool(value: &Option<String>) -> (r: Reading<bool>)
    ensures
        r == bool_reading(optional(*value)),
{
    match env_trimmed(value) {
        None => Reading::Absent,
        Some(s) => {
            let word = text::lowercase(s.as_str());
            let w = word.as_str();
            if text::same(w, "1") || text::same(w, "true") || text::same(w, "yes") || text::same(
                w,
                "on",
            ) {
                Reading::Value(true)
            } else if text::same(w, "0") || text::same(w, "false") || text::same(w, "no")
                || text::same(w, "off") {
                Reading::Value(false)
            } else {
                Reading::Fault
            }
        },
    }
}

/// The entries of a list with commas between them.
pub fn env_list(value: &str) -> (r: Vec<String>)
    ensures
        super::texts(r@) == list_entries(text::fields(value@, ',')),
{
    let chars = text::chars_of(value);
    assert(chars@.subrange(0, chars@.len() as int) =~= value@);
    let parts = text::split(&chars, 0, chars.len(), ',');
    let ghost p = text::inner(parts@);
    let mut out: Vec<String> = Vec::new();
    let mut i: usize = 0;
    assert(p.take(0) =~= Seq::<Seq<char>>::empty());
    assert(super::texts(out@) =~= Seq::<Seq<char>>::empty());
    while i < parts.len()
        invariant
            i <= parts@.len(),
            p == text::inner(parts@),
            super::texts(out@) == list_entries(p.take(i as int)),
        decreases parts@.len() - i,
    {
        let field = text::text_of(&parts[i], 0, parts[i].len());
        assert(parts@[i as int]@.subrange(0, parts@[i as int]@.len() as int)
            =~= parts@[i as int]@);
        assert(p.take(i + 1).drop_last() =~= p.take(i as int));
        assert(p[i as int] == parts@[i as int]@);
        let entry = text::trim(field.as_str());
        if !entry.as_str().is_empty() {
            let ghost e = entry@;
            let ghost before = super::texts(out@);
            out.push(entry);
            assert(super::texts(out@) =~= before.push(e));
        }
        i = i + 1;
    }
    assert(p.take(i as int) =~= p);
    out
}

// ---------------------------------------------------------------------------
// Laws
// ---------------------------------------------------------------------------

/// Letters, digits, dots and hyphens make a host, and a URL holds it as it is. A host never holds
/// what would make it more than one: `@`, a slash of either kind, `?`, `#` or white space.
pub proof fn law_host_names(host: Seq<char>)
    ensures
        host.len() > 0 && (forall|i: int|
            0 <= i < host.len() ==> 'a' <= #[trigger] host[i] <= 'z' || 'A' <= host[i] <= 'Z' || '0'
                <= host[i] <= '9' || host[i] == '.' || host[i] == '-') ==> is_host(host) && url_form(
            host,
        ) == host,
        is_host(host) ==> host.len() > 0 && (forall|i: int|
            0 <= i < host.len() ==> #[trigger] host[i] != '@' && host[i] != '/' && host[i] != '\\'
                && host[i] != '?' && host[i] != '#' && !text::is_space(host[i])),
        is_host(host) && !host.contains(':') && !host.contains('[') ==> (forall|i: int|
            0 <= i < host.len() ==> 'a' <= #[trigger] host[i] <= 'z' || 'A' <= host[i] <= 'Z' || '0'
                <= host[i] <= '9' || host[i] == '.' || host[i] == '-'),
{
    if host.len() > 0 && (forall|i: int|
        0 <= i < host.len() ==> 'a' <= #[trigger] host[i] <= 'z' || 'A' <= host[i] <= 'Z' || '0'
            <= host[i] <= '9' || host[i] == '.' || host[i] == '-') {
        assert(host[0] != '[');
        assert(unbracketed(host) == host);
        assert(!host.contains(':'));
        assert forall|i: int| 0 <= i < host.len() implies !is_foreign(#[trigger] host[i]) by {
        }
        assert forall|i: int| 0 <= i < host.len() implies names_host(#[trigger] host[i]) by {
        }
    }
    if is_host(host) {
        assert forall|i: int| 0 <= i < host.len() implies #[trigger] host[i] != '@' && host[i]
            != '/' && host[i] != '\\' && host[i] != '?' && host[i] != '#' && !text::is_space(
            host[i],
        ) by {
            assert(!is_foreign(host[i]));
        }
        if !host.contains(':') && !host.contains('[') {
            assert(host[0] != '[');
            assert(unbracketed(host) == host);
            assert forall|i: int| 0 <= i < host.len() implies 'a' <= #[trigger] host[i] <= 'z'
                || 'A' <= host[i] <= 'Z' || '0' <= host[i] <= '9' || host[i] == '.' || host[i]
                == '-' by {
                assert(names_host(host[i]));
            }
        }
    }
}

/// Brackets around an address change nothing: it is a host and this machine where it is without
/// them, and a URL holds an address with colons in brackets either way.
pub proof fn law_brackets_change_nothing(address: Seq<char>)
    requires
        address.contains(':'),
        address[0] != '[',
    ensures
        ({
            let inside = seq!['['] + address + seq![']'];
            &&& is_host(inside) == is_host(address)
            &&& is_loopback(inside) == is_loopback(address)
            &&& url_form(inside) == inside
            &&& url_form(address) == inside
        }),
{
    let inside = seq!['['] + address + seq![']'];
    reveal_strlit("[");
    reveal_strlit("]");
    assert(unbracketed(inside) =~= address);
    assert(url_form(address) =~= inside);
    if is_host(address) {
        assert forall|i: int| 0 <= i < inside.len() implies !is_foreign(#[trigger] inside[i]) by {
            if 1 <= i <= address.len() {
                assert(inside[i] == address[i - 1]);
            }
        }
    }
    if is_host(inside) {
        assert forall|i: int| 0 <= i < address.len() implies !is_foreign(
            #[trigger] address[i],
        ) by {
            assert(inside[i + 1] == address[i]);
        }
    }
}

/// This machine is `localhost`, in any case, with a final dot or without; else it is what is
/// written as an address of this machine.
pub proof fn law_localhost(host: Seq<char>)
    requires
        host.len() > 0,
        host[0] != '[',
    ensures
        text::lowered(host) == "localhost"@ ==> is_loopback(host),
        text::lowered(host) == "localhost."@ ==> is_loopback(host),
        text::lowered(host) != "localhost"@ && text::lowered(host) != "localhost."@
            ==> is_loopback(host) == (ip::address(host) matches Some(a) && a.is_loopback()),
{
}

/// The words for yes and no, in any case and with any white space around them. Nothing else is one,
/// and a blank value is as good as none.
pub proof fn law_truth_words(value: Seq<char>)
    ensures
        ({
            let word = text::lowered(text::trimmed(value));
            let yes = word == "1"@ || word == "true"@ || word == "yes"@ || word == "on"@;
            let no = word == "0"@ || word == "false"@ || word == "no"@ || word == "off"@;
            &&& yes ==> bool_reading(Some(value)) == Reading::Value(true)
            &&& no ==> bool_reading(Some(value)) == Reading::Value(false)
            &&& word.len() == 0 ==> bool_reading(Some(value)) is Absent
            &&& word.len() > 0 && !yes && !no ==> bool_reading(Some(value)) is Fault
        }),
{
    reveal_strlit("1");
    reveal_strlit("true");
    reveal_strlit("yes");
    reveal_strlit("on");
    reveal_strlit("0");
    reveal_strlit("false");
    reveal_strlit("no");
    reveal_strlit("off");
    assert("1"@[0] == '1' && "true"@[0] == 't' && "yes"@[0] == 'y' && "on"@[0] == 'o' && "on"@.len()
        == 2);
    assert("0"@[0] == '0' && "false"@[0] == 'f' && "no"@[0] == 'n' && "off"@[0] == 'o'
        && "off"@.len() == 3);
    let stripped = text::trimmed(value);
    assert(text::lowered(stripped).len() == stripped.len());
    assert("1"@.len() > 0 && "true"@.len() > 0 && "yes"@.len() > 0);
    assert("0"@.len() > 0 && "false"@.len() > 0 && "no"@.len() > 0);
}

/// A number is read back from its decimal notation, up to the greatest that is allowed and no
/// further.
pub proof fn law_numbers_read_back(n: nat, max: nat)
    ensures
        number_reading(Some(number::decimal(n as int)), max) == (if n <= max {
            Reading::Value(n)
        } else {
            Reading::Fault
        }),
        number_reading(None, max) is Absent,
{
    let s = number::decimal(n as int);
    number::lemma_digits_denote(n);
    number::law_unsigned_reads_decimal(n, n);
    assert(text::is_digit(s[0]));
    assert(text::is_digit(s[s.len() - 1]));
    assert(!text::is_space(s[0]) && !text::is_space(s.last()));
    assert(text::trimmed(s) == s);
}

/// The entries of a list are those of its fields, in their order: a field gives its text without
/// the white space around it, and a blank field gives nothing.
pub proof fn law_list_entries_follow_the_fields(
    a: Seq<Seq<char>>,
    b: Seq<Seq<char>>,
    field: Seq<char>,
)
    ensures
        list_entries(a + b) == list_entries(a) + list_entries(b),
        text::trimmed(field).len() > 0 ==> list_entries(seq![field]) == seq![text::trimmed(field)],
        text::trimmed(field).len() == 0 ==> list_entries(seq![field]).len() == 0,
    decreases b.len(),
{
    reveal_with_fuel(list_entries, 2);
    assert(seq![field].drop_last() =~= Seq::<Seq<char>>::empty());
    assert(list_entries(Seq::<Seq<char>>::empty()) =~= Seq::empty());
    if text::trimmed(field).len() > 0 {
        assert(list_entries(seq![field]) =~= seq![text::trimmed(field)]);
    }
    if b.len() == 0 {
        assert(a + b =~= a);
        assert(list_entries(a) + list_entries(b) =~= list_entries(a));
    } else {
        law_list_entries_follow_the_fields(a, b.drop_last(), field);
        assert((a + b).drop_last() =~= a + b.drop_last());
        assert((a + b).last() == b.last());
        let entry = text::trimmed(b.last());
        let before = list_entries(b.drop_last());
        assert((list_entries(a) + before).push(entry) =~= list_entries(a) + before.push(entry));
    }
}

} // verus!
