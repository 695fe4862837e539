use vstd::prelude::*;
use vstd::string::StringSliceAdditionalSpecFns;
use vstd::utf8::*;

use crate::buf::slice_range;
use crate::error::Error;
use crate::types::bytes_equal;

verus! {

broadcast use vstd::utf8::group_utf8_lib;

/// Byte of the level separator '/'.
pub open spec fn sep_byte() -> u8 {
    47
}

/// Byte of the single-level wildcard '+'.
pub open spec fn one_byte() -> u8 {
    43
}

/// Byte of the multi-level wildcard '#'.
pub open spec fn all_byte() -> u8 {
    35
}

/// The shared subscription prefix "$share/".
pub open spec fn share_prefix() -> Seq<u8> {
    seq![36u8, 115, 104, 97, 114, 101, 47]
}

/// The system topic prefix "$SYS/".
pub open spec fn sys_prefix() -> Seq<u8> {
    seq![36u8, 83, 89, 83, 47]
}

/// Whether `b` starts with `prefix`.
pub open spec fn starts_with(b: Seq<u8>, prefix: Seq<u8>) -> bool {
    b.len() >= prefix.len() && b.subrange(0, prefix.len() as int) == prefix
}

/// A topic name holds no wildcard and no NUL byte, and fits a two byte length.
pub open spec fn topic_name_valid(b: Seq<u8>) -> bool {
    &&& b.len() <= 65535
    &&& forall|i: int|
        0 <= i < b.len() ==> #[trigger] b[i] != one_byte() && b[i] != all_byte() && b[i] != 0u8
}

/// The rules of a topic filter that hold at each byte: no NUL byte; '#' only
/// as the last byte and at the start of a level; '+' only at the start of a
/// level, and when a later byte is '/', the byte right after the '+' is '/'.
pub open spec fn filter_levels_ok(b: Seq<u8>) -> bool {
    &&& forall|i: int| 0 <= i < b.len() ==> #[trigger] b[i] != 0u8
    &&& forall|i: int|
        0 <= i < b.len() && #[trigger] b[i] == all_byte() ==> i == b.len() - 1 && (i == 0 || b[i
            - 1] == sep_byte())
    &&& forall|i: int|
        0 <= i < b.len() && #[trigger] b[i] == one_byte() ==> (i == 0 || b[i - 1] == sep_byte())
    &&& forall|k: int, j: int|
        0 <= k && k + 1 < j < b.len() && #[trigger] b[k] == one_byte() && #[trigger] b[j]
            == sep_byte() ==> b[k + 1] == sep_byte()
}

/// The first index at or after `i` that holds '/', or the length.
pub open spec fn find_sep(b: Seq<u8>, i: int) -> int
    decreases b.len() - i,
{
    if i < 0 || i >= b.len() {
        b.len() as int
    } else if b[i] == sep_byte() {
        i
    } else {
        find_sep(b, i + 1)
    }
}

/// The byte index of the '/' that ends the group name of a shared filter,
/// or 0 for a filter that is not shared.
pub open spec fn shared_sep(b: Seq<u8>) -> int {
    if starts_with(b, share_prefix()) {
        find_sep(b, 7)
    } else {
        0
    }
}

/// A shared filter "$share/{group}/{filter}" has a non-empty group without
/// wildcards and a non-empty filter.
pub open spec fn shared_ok(b: Seq<u8>) -> bool {
    starts_with(b, share_prefix()) ==> {
        let j = find_sep(b, 7);
        &&& 7 < j < b.len() - 1
        &&& forall|k: int| 7 <= k < j ==> #[trigger] b[k] != one_byte() && b[k] != all_byte()
    }
}

/// A valid topic filter is non-empty, fits a two byte length, and keeps the
/// level and the shared subscription rules.
pub open spec fn topic_filter_valid(b: Seq<u8>) -> bool {
    &&& 0 < b.len() <= 65535
    &&& filter_levels_ok(b)
    &&& shared_ok(b)
}

proof fn lemma_find_sep(b: Seq<u8>, i: int)
    requires
        0 <= i <= b.len(),
    ensures
        i <= find_sep(b, i) <= b.len(),
        find_sep(b, i) < b.len() ==> b[find_sep(b, i)] == sep_byte(),
        forall|k: int| i <= k < find_sep(b, i) ==> b[k] != sep_byte(),
    decreases b.len() - i,
{
    if i < b.len() && b[i] != sep_byte() {
        lemma_find_sep(b, i + 1);
    }
}

/// Whether the string starts with the byte sequence of `prefix`.
fn bytes_start_with(b: &[u8], prefix: &[u8]) -> (r: bool)
    ensures
        r == starts_with(b@, prefix@),
{
    if b.len() < prefix.len() {
        return false;
    }
    let head = slice_range(b, 0, prefix.len());
    bytes_equal(head, prefix)
}

/// Topic name: the bytes of a UTF-8 string that holds no wildcard.
#[derive(Debug, PartialEq, Eq, Hash, PartialOrd, Ord)]
pub struct TopicName(String);

impl TopicName {
    #[verifier::type_invariant]
    spec fn inv(self) -> bool {
        topic_name_valid(encode_utf8(self.0@))
    }

    /// The UTF-8 bytes of the name.
    pub closed spec fn bytes(&self) -> Seq<u8> {
        encode_utf8(self.0@)
    }

    /// The characters of the name.
    pub closed spec fn chars(&self) -> Seq<char> {
        self.0@
    }

    pub proof fn lemma_bytes(&self)
        ensures
            self.bytes() == encode_utf8(self.chars()),
    {
    }

    /// Whether the string is not a valid topic name.
    pub fn is_invalid(value: &str) -> (r: bool)
        ensures
            r == !topic_name_valid(value.spec_bytes()),
    {
        let b = value.as_bytes();
        if b.len() > 65535 {
            return true;
        }
        let mut i: usize = 0;
        while i < b.len()
            invariant
                i <= b@.len(),
                b@ == value.spec_bytes(),
                forall|k: int|
                    0 <= k < i ==> #[trigger] b@[k] != one_byte() && b@[k] != all_byte() && b@[k]
                        != 0u8,
            decreases b.len() - i,
        {
            if b[i] == 43 || b[i] == 35 || b[i] == 0 {
                let ghost vb = value.spec_bytes();
                assert(vb[i as int] == one_byte() || vb[i as int] == all_byte() || vb[i as int] == 0u8);
                return true;
            }
            i += 1;
        }
        false
    }

    /// Makes a topic name of a string; an invalid one is refused.
    pub fn from_str(value: &str) -> (r: Result<TopicName, Error>)
        ensures
            topic_name_valid(value.spec_bytes()) ==> (r matches Ok(t) && t.chars() == value@),
            !topic_name_valid(value.spec_bytes()) ==> (r matches Err(Error::InvalidTopicName(s))
                && s@ == value@),
    {
        if TopicName::is_invalid(value) {
            Err(Error::InvalidTopicName(value.to_owned()))
        } else {
            Ok(TopicName(value.to_owned()))
        }
    }

    /// The text, as an owned string.
    pub fn to_string(&self) -> (r: String)
        ensures
            r@ == self.chars(),
    {
        self.as_str().to_owned()
    }

    /// The name as a string.
    pub fn as_str(&self) -> (r: &str)
        ensures
            r@ == self.chars(),
    {
        self.0.as_str()
    }

    /// The UTF-8 bytes of the name.
    pub fn as_bytes(&self) -> (r: &[u8])
        ensures
            r@ == self.bytes(),
            topic_name_valid(self.bytes()),
    {
        proof {
            use_type_invariant(self);
        }
        self.0.as_str().as_bytes()
    }

    /// The byte length of the name.
    pub fn len(&self) -> (r: usize)
        ensures
            r == self.bytes().len(),
            r <= 65535,
    {
        proof {
            use_type_invariant(self);
        }
        self.0.as_str().as_bytes().len()
    }

    /// Whether the name is empty.
    pub fn is_empty(&self) -> (r: bool)
        ensures
            r == (self.bytes().len() == 0),
    {
        self.len() == 0
    }

    /// Whether the name starts with "$share/".
    pub fn is_shared(&self) -> (r: bool)
        ensures
            r == starts_with(self.bytes(), share_prefix()),
    {
        let prefix: &[u8] = &[36u8, 115, 104, 97, 114, 101, 47];
        bytes_start_with(self.as_bytes(), prefix)
    }

    /// Whether the name starts with "$SYS/".
    pub fn is_sys(&self) -> (r: bool)
        ensures
            r == starts_with(self.bytes(), sys_prefix()),
    {
        let prefix: &[u8] = &[36u8, 83, 89, 83, 47];
        bytes_start_with(self.as_bytes(), prefix)
    }
}

impl Clone for TopicName {
    fn clone(&self) -> (r: Self)
        ensures
            r.chars() == self.chars(),
    {
        proof {
            use_type_invariant(self);
        }
        TopicName(self.0.clone())
    }
}

impl<'a> vstd::std_specs::convert::TryFromSpecImpl<&'a str> for TopicName {
    open spec fn obeys_try_from_spec() -> bool {
        false
    }

    open spec fn try_from_spec(v: &'a str) -> Result<TopicName, Error> {
        arbitrary()
    }
}

impl<'a> TryFrom<&'a str> for TopicName {
    type Error = Error;

    fn try_from(value: &'a str) -> (r: Result<Self, Error>)
        ensures
            topic_name_valid(value.spec_bytes()) ==> (r matches Ok(t) && t.chars() == value@),
            !topic_name_valid(value.spec_bytes()) ==> (r matches Err(Error::InvalidTopicName(s)) && s@ == value@),
    {
        TopicName::from_str(value)
    }
}

impl vstd::std_specs::convert::TryFromSpecImpl<String> for TopicName {
    open spec fn obeys_try_from_spec() -> bool {
        false
    }

    open spec fn try_from_spec(v: String) -> Result<TopicName, Error> {
        arbitrary()
    }
}

impl TryFrom<String> for TopicName {
    type Error = Error;

    fn try_from(value: String) -> (r: Result<Self, Error>)
        ensures
            topic_name_valid(vstd::utf8::encode_utf8(value@)) ==> (r matches Ok(t) && t.chars() == value@),
            !topic_name_valid(vstd::utf8::encode_utf8(value@)) ==> (r matches Err(Error::InvalidTopicName(s)) && s@ == value@),
    {
        TopicName::from_str(value.as_str())
    }
}

impl core::ops::Deref for TopicName {
    type Target = str;

    fn deref(&self) -> (r: &str)
        ensures
            r@ == self.chars(),
    {
        self.as_str()
    }
}

} // verus!

verus! {

/// Topic filter: the bytes of a UTF-8 string, and the byte index of the '/'
/// that ends the group name of a shared subscription (0 when not shared).
#[derive(Debug, Hash, PartialOrd, Ord)]
pub struct TopicFilter {
    inner: String,
    shared_filter_sep: u16,
}

/// The outcome of `TopicFilter::is_invalid`: whether the filter is invalid,
/// and for a valid filter where its shared filter begins.
pub open spec fn spec_filter_check(b: Seq<u8>) -> (bool, u16) {
    if topic_filter_valid(b) {
        (false, shared_sep(b) as u16)
    } else {
        (true, 0)
    }
}

proof fn lemma_ascii_head_boundary(bytes: Seq<u8>)
    requires
        valid_utf8(bytes),
        bytes.len() >= 1,
        bytes[0] < 128,
    ensures
        is_char_boundary(bytes, 1),
{
    reveal_with_fuel(is_char_boundary, 2);
    reveal_with_fuel(valid_utf8, 2);
}

impl TopicFilter {
    #[verifier::type_invariant]
    spec fn inv(self) -> bool {
        &&& topic_filter_valid(encode_utf8(self.inner@))
        &&& self.shared_filter_sep == shared_sep(encode_utf8(self.inner@))
    }

    /// The UTF-8 bytes of the filter.
    pub closed spec fn bytes(&self) -> Seq<u8> {
        encode_utf8(self.inner@)
    }

    /// The characters of the filter.
    pub closed spec fn chars(&self) -> Seq<char> {
        self.inner@
    }

    pub proof fn lemma_bytes(&self)
        ensures
            self.bytes() == encode_utf8(self.chars()),
    {
    }

    /// Checks a topic filter: returns whether it is invalid, and for a valid
    /// shared filter the byte index of the '/' before its filter part.
    pub fn is_invalid(value: &str) -> (r: (bool, u16))
        ensures
            r == spec_filter_check(value.spec_bytes()),
    {
        let b = value.as_bytes();
        let ghost bs = b@;
        let len = b.len();
        if len > 65535 || len == 0 {
            return (true, 0);
        }
        let prefix: &[u8] = &[36u8, 115, 104, 97, 114, 101, 47];
        let mut sep: usize = 0;
        if bytes_start_with(b, prefix) {
            let mut j: usize = 7;
            proof {
                lemma_find_sep(bs, 7);
            }
            while j < len && b[j] != 47
                invariant
                    b@ == bs,
                    bs == value.spec_bytes(),
                    len == bs.len(),
                    starts_with(bs, share_prefix()),
                    7 <= j <= len,
                    find_sep(bs, 7) == find_sep(bs, j as int),
                    forall|k: int|
                        7 <= k < j ==> #[trigger] bs[k] != sep_byte() && bs[k] != one_byte()
                            && bs[k] != all_byte(),
                decreases len - j,
            {
                if b[j] == 43 || b[j] == 35 {
                    proof {
                        lemma_find_sep(bs, j as int);
                        assert(bs[j as int] == one_byte() || bs[j as int] == all_byte());
                        assert(find_sep(bs, 7) > j);
                        assert(!shared_ok(bs));
                    }
                    return (true, 0);
                }
                j += 1;
            }
            proof {
                lemma_find_sep(bs, j as int);
            }
            if j == 7 || j + 1 >= len {
                return (true, 0);
            }
            sep = j;
        }
        proof {
            assert(shared_ok(bs));
            assert(sep == shared_sep(bs));
        }
        let mut pending = false;
        let mut i: usize = 0;
        while i < len
            invariant
                b@ == bs,
                bs == value.spec_bytes(),
                len == bs.len(),
                0 < len <= 65535,
                shared_ok(bs),
                sep == shared_sep(bs),
                sep < len,
                i <= len,
                forall|p: int| 0 <= p < i ==> #[trigger] bs[p] != 0u8,
                forall|p: int|
                    0 <= p < i && #[trigger] bs[p] == all_byte() ==> p == len - 1 && (p == 0
                        || bs[p - 1] == sep_byte()),
                forall|p: int|
                    0 <= p < i && #[trigger] bs[p] == one_byte() ==> (p == 0 || bs[p - 1]
                        == sep_byte()),
                forall|k: int, j: int|
                    0 <= k && k + 1 < j < i && #[trigger] bs[k] == one_byte() && #[trigger] bs[j]
                        == sep_byte() ==> bs[k + 1] == sep_byte(),
                !pending ==> forall|k: int|
                    0 <= k < i && #[trigger] bs[k] == one_byte() && k + 1 < len ==> bs[k + 1]
                        == sep_byte(),
                pending ==> exists|k: int|
                    0 <= k < i && #[trigger] bs[k] == one_byte() && k + 1 < len && bs[k + 1]
                        != sep_byte(),
            decreases len - i,
        {
            let c = b[i];
            if c == 0 {
                proof {
                    assert(bs[i as int] == 0u8);
                }
                return (true, 0);
            }
            if c == 35 {
                if !(i == len - 1 && (i == 0 || b[i - 1] == 47)) {
                    proof {
                        assert(bs[i as int] == all_byte());
                        assert(!filter_levels_ok(bs));
                    }
                    return (true, 0);
                }
            }
            if c == 43 {
                if !(i == 0 || b[i - 1] == 47) {
                    proof {
                        assert(bs[i as int] == one_byte());
                        assert(!filter_levels_ok(bs));
                    }
                    return (true, 0);
                }
                if i + 1 < len && b[i + 1] != 47 {
                    pending = true;
                }
            }
            if c == 47 && pending {
                proof {
                    let k = choose|k: int|
                        0 <= k < i && #[trigger] bs[k] == one_byte() && k + 1 < len && bs[k + 1]
                            != sep_byte();
                    assert(bs[i as int] == sep_byte());
                    assert(k + 1 < i);
                    assert(!filter_levels_ok(bs));
                }
                return (true, 0);
            }
            proof {
                assert forall|k: int, j: int|
                    0 <= k && k + 1 < j < i + 1 && #[trigger] bs[k] == one_byte() && #[trigger] bs[j]
                        == sep_byte() implies bs[k + 1] == sep_byte() by {
                    if j == i {
                        assert(!pending);
                    }
                }
            }
            i += 1;
        }
        proof {
            assert(filter_levels_ok(bs));
        }
        (false, sep as u16)
    }

    /// Makes a topic filter of a string; an invalid one is refused.
    pub fn from_str(value: &str) -> (r: Result<TopicFilter, Error>)
        ensures
            topic_filter_valid(value.spec_bytes()) ==> (r matches Ok(t) && t.chars() == value@),
            !topic_filter_valid(value.spec_bytes()) ==> (r matches Err(Error::InvalidTopicFilter(s))
                && s@ == value@),
    {
        let (is_invalid, shared_filter_sep) = TopicFilter::is_invalid(value);
        if is_invalid {
            Err(Error::InvalidTopicFilter(value.to_owned()))
        } else {
            Ok(TopicFilter { inner: value.to_owned(), shared_filter_sep })
        }
    }

    /// The text, as an owned string.
    pub fn to_string(&self) -> (r: String)
        ensures
            r@ == self.chars(),
    {
        self.as_str().to_owned()
    }

    /// The filter as a string.
    pub fn as_str(&self) -> (r: &str)
        ensures
            r@ == self.chars(),
    {
        self.inner.as_str()
    }

    /// The UTF-8 bytes of the filter.
    pub fn as_bytes(&self) -> (r: &[u8])
        ensures
            r@ == self.bytes(),
            topic_filter_valid(self.bytes()),
    {
        proof {
            use_type_invariant(self);
        }
        self.inner.as_str().as_bytes()
    }

    /// The byte length of the filter.
    pub fn len(&self) -> (r: usize)
        ensures
            r == self.bytes().len(),
            0 < r <= 65535,
    {
        self.as_bytes().len()
    }

    /// Whether the filter is empty (a valid filter never is).
    pub fn is_empty(&self) -> (r: bool)
        ensures
            r == (self.bytes().len() == 0),
    {
        self.len() == 0
    }

    /// Whether the filter is a shared subscription.
    pub fn is_shared(&self) -> (r: bool)
        ensures
            r == starts_with(self.bytes(), share_prefix()),
    {
        proof {
            use_type_invariant(self);
            let b = self.bytes();
            if starts_with(b, share_prefix()) {
                lemma_find_sep(b, 7);
            }
        }
        self.shared_filter_sep > 0
    }

    /// Whether the filter starts with "$SYS/".
    pub fn is_sys(&self) -> (r: bool)
        ensures
            r == starts_with(self.bytes(), sys_prefix()),
    {
        let prefix: &[u8] = &[36u8, 83, 89, 83, 47];
        bytes_start_with(self.as_bytes(), prefix)
    }

    /// The group name of a shared subscription.
    pub fn shared_group_name(&self) -> (r: Option<&str>)
        ensures
            starts_with(self.bytes(), share_prefix()) ==> (r matches Some(s) && s.spec_bytes()
                == self.bytes().subrange(7, shared_sep(self.bytes()))),
            !starts_with(self.bytes(), share_prefix()) ==> r is None,
    {
        match self.shared_info() {
            Some((group, _)) => Some(group),
            None => None,
        }
    }

    /// The filter part of a shared subscription.
    pub fn shared_filter(&self) -> (r: Option<&str>)
        ensures
            starts_with(self.bytes(), share_prefix()) ==> (r matches Some(s) && s.spec_bytes()
                == self.bytes().subrange(shared_sep(self.bytes()) + 1, self.bytes().len() as int)),
            starts_with(self.bytes(), share_prefix()) ==> (r matches Some(s) && s.spec_bytes().len()
                > 0 && self.bytes() == share_prefix() + self.bytes().subrange(7, shared_sep(self.bytes()))
                + seq![47u8] + s.spec_bytes()),
            !starts_with(self.bytes(), share_prefix()) ==> r is None,
    {
        match self.shared_info() {
            Some((_, filter)) => Some(filter),
            None => None,
        }
    }

    /// The group name and the filter part of a shared subscription.
    pub fn shared_info(&self) -> (r: Option<(&str, &str)>)
        ensures
            starts_with(self.bytes(), share_prefix()) ==> (r matches Some((g, f)) && g.spec_bytes()
                == self.bytes().subrange(7, shared_sep(self.bytes())) && f.spec_bytes()
                == self.bytes().subrange(shared_sep(self.bytes()) + 1, self.bytes().len() as int)),
            starts_with(self.bytes(), share_prefix()) ==> (r matches Some((g, f)) && g.spec_bytes().len()
                > 0 && f.spec_bytes().len() > 0 && self.bytes() == share_prefix() + g.spec_bytes()
                + seq![47u8] + f.spec_bytes()),
            !starts_with(self.bytes(), share_prefix()) ==> r is None,
    {
        if !self.is_shared() {
            return None;
        }
        proof {
            use_type_invariant(self);
        }
        let ghost b = self.bytes();
        let s = self.inner.as_str();
        let sep = self.shared_filter_sep as usize;
        proof {
            lemma_find_sep(b, 7);
            encode_utf8_valid_utf8(self.inner@);
            assert(b[6] == sep_byte()) by {
                assert(b.subrange(0, 7)[6] == share_prefix()[6]);
            }
            is_char_boundary_iff_not_is_continuation_byte(b, 6);
            is_char_boundary_iff_not_is_continuation_byte(b, sep as int);
        }
        // "$share" | "/{group}/{filter}"
        let (_, rest) = s.split_at(6);
        proof {
            valid_utf8_split(b, 6);
            assert(rest.spec_bytes()[0] == b[6]);
            lemma_ascii_head_boundary(rest.spec_bytes());
        }
        // "/" | "{group}/{filter}"
        let (_, rest) = rest.split_at(1);
        let ghost tail = b.subrange(7, b.len() as int);
        proof {
            assert(rest.spec_bytes() =~= tail);
            valid_utf8_split(b.subrange(6, b.len() as int), 1);
            assert(tail[sep - 7] == b[sep as int]);
            is_char_boundary_iff_not_is_continuation_byte(tail, sep - 7);
        }
        // "{group}" | "/{filter}"
        let (group, slash_filter) = rest.split_at(sep - 7);
        proof {
            assert(group.spec_bytes() =~= b.subrange(7, sep as int));
            let sf = slash_filter.spec_bytes();
            assert(sf =~= b.subrange(sep as int, b.len() as int));
            valid_utf8_split(tail, sep - 7);
            assert(sf[0] == b[sep as int]);
            lemma_ascii_head_boundary(sf);
        }
        // "/" | "{filter}"
        let (_, filter) = slash_filter.split_at(1);
        proof {
            assert(filter.spec_bytes() =~= b.subrange(sep + 1, b.len() as int));
            assert(b.subrange(0, 7) == share_prefix());
            assert(b =~= share_prefix() + group.spec_bytes() + seq![47u8] + filter.spec_bytes());
        }
        Some((group, filter))
    }
}

impl Clone for TopicFilter {
    fn clone(&self) -> (r: Self)
        ensures
            r.chars() == self.chars(),
    {
        proof {
            use_type_invariant(self);
        }
        TopicFilter { inner: self.inner.clone(), shared_filter_sep: self.shared_filter_sep }
    }
}

impl PartialEq for TopicFilter {
    fn eq(&self, other: &Self) -> (r: bool) {
        bytes_equal(self.as_bytes(), other.as_bytes())
    }
}

impl vstd::std_specs::cmp::PartialEqSpecImpl for TopicFilter {
    open spec fn obeys_eq_spec() -> bool {
        true
    }

    open spec fn eq_spec(&self, other: &TopicFilter) -> bool {
        self.bytes() == other.bytes()
    }
}

impl Eq for TopicFilter {
}

impl<'a> vstd::std_specs::convert::TryFromSpecImpl<&'a str> for TopicFilter {
    open spec fn obeys_try_from_spec() -> bool {
        false
    }

    open spec fn try_from_spec(v: &'a str) -> Result<TopicFilter, Error> {
        arbitrary()
    }
}

impl<'a> TryFrom<&'a str> for TopicFilter {
    type Error = Error;

    fn try_from(value: &'a str) -> (r: Result<Self, Error>)
        ensures
            topic_filter_valid(value.spec_bytes()) ==> (r matches Ok(t) && t.chars() == value@),
            !topic_filter_valid(value.spec_bytes()) ==> (r matches Err(Error::InvalidTopicFilter(s)) && s@ == value@),
    {
        TopicFilter::from_str(value)
    }
}

impl vstd::std_specs::convert::TryFromSpecImpl<String> for TopicFilter {
    open spec fn obeys_try_from_spec() -> bool {
        false
    }

    open spec fn try_from_spec(v: String) -> Result<TopicFilter, Error> {
        arbitrary()
    }
}

impl TryFrom<String> for TopicFilter {
    type Error = Error;

    fn try_from(value: String) -> (r: Result<Self, Error>)
        ensures
            topic_filter_valid(vstd::utf8::encode_utf8(value@)) ==> (r matches Ok(t) && t.chars() == value@),
            !topic_filter_valid(vstd::utf8::encode_utf8(value@)) ==> (r matches Err(Error::InvalidTopicFilter(s)) && s@ == value@),
    {
        TopicFilter::from_str(value.as_str())
    }
}

impl core::ops::Deref for TopicFilter {
    type Target = str;

    fn deref(&self) -> (r: &str)
        ensures
            r@ == self.chars(),
    {
        self.as_str()
    }
}

} // verus!
