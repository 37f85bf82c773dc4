//! Which process belongs to which component, tenant and revision.
use vstd::prelude::*;

use crate::outside;
use crate::text;

verus! {

/// How many digits name an instance.
pub const INSTANCE_ID_CHARS: usize = 24;

/// A process to start: a component of a tenant, at a revision.
#[derive(Clone, Debug, PartialEq, Eq)]
pub struct Start {
    pub source: u128,
    pub tenant: String,
    pub revision: String,
}

/// A process to stop.
#[derive(Clone, Debug, PartialEq, Eq)]
pub struct Stop {
    pub id: String,
}

/// What an instance's name is made from: the length of the tenant's name, the tenant, the
/// component and the revision.
pub open spec fn instance_key(tenant: Seq<char>, source: u128, revision: Seq<char>) -> Seq<char> {
    text::decimal(text::byte_len(tenant)) + ":"@ + tenant + ":"@ + outside::hyphenated(source)
        + ":"@ + revision
}

/// The name of an instance.
pub open spec fn instance_id(start: Start) -> Seq<char> {
    text::hex(
        outside::sha256(
            vstd::utf8::encode_utf8(instance_key(start.tenant@, start.source, start.revision@)),
        ),
    ).take(INSTANCE_ID_CHARS as int)
}

impl Start {
    /// The name of the instance.
    pub fn id(&self) -> (id: String)
        ensures
            id@ == instance_id(*self),
            id@.len() == INSTANCE_ID_CHARS,
            text::all_hex(id@),
    {
        let length = text::decimal_text(self.tenant.as_str().as_bytes().len() as u64);
        let source = outside::uuid_text(self.source);
        let key = length.concat(":").concat(self.tenant.as_str()).concat(":").concat(
            source.as_str(),
        ).concat(":").concat(self.revision.as_str());
        assert(key@ =~= instance_key(self.tenant@, self.source, self.revision@));
        let digest = outside::sha256_hex(key.as_str().as_bytes());
        let chars = text::chars_of(digest.as_str());
        let id = text::text_of(&chars, 0, INSTANCE_ID_CHARS);
        proof {
            assert(id@ =~= digest@.take(INSTANCE_ID_CHARS as int));
            text::lemma_hex(
                outside::sha256(
                    vstd::utf8::encode_utf8(
                        instance_key(self.tenant@, self.source, self.revision@),
                    ),
                ),
            );
        }
        id
    }
}

/// A prefix of a text is known by its length in bytes.
proof fn lemma_prefix_by_bytes(whole: Seq<char>, a: int, b: int)
    requires
        0 <= a <= b <= whole.len(),
        text::byte_len(whole.take(a)) == text::byte_len(whole.take(b)),
    ensures
        a == b,
{
    let middle = whole.subrange(a, b);
    assert(whole.take(b) =~= whole.take(a) + middle);
    text::lemma_bytes_concat(whole.take(a), middle);
    text::lemma_bytes_positive(middle);
}

proof fn lemma_decimal_without_colon(value: nat)
    ensures
        !text::decimal(value).contains(':'),
    decreases value,
{
    let shown = text::decimal(value);
    if value >= 10 {
        lemma_decimal_without_colon(value / 10);
        let front = text::decimal(value / 10);
        assert forall|i: int| 0 <= i < shown.len() implies shown[i] != ':' by {
            if i < shown.len() - 1 {
                assert(shown[i] == front[i]);
                assert(front.contains(front[i]));
            } else {
                assert(shown[i] == text::digit(value % 10));
            }
        }
    } else {
        assert(shown[0] == text::digit(value));
    }
}

/// Instances of different tenants, components or revisions are named from different keys, whatever
/// the names of the tenants hold.
pub proof fn lemma_instance_key_injective(
    tenant: Seq<char>,
    source: u128,
    revision: Seq<char>,
    other_tenant: Seq<char>,
    other_source: u128,
    other_revision: Seq<char>,
)
    requires
        instance_key(tenant, source, revision) == instance_key(
            other_tenant,
            other_source,
            other_revision,
        ),
    ensures
        tenant == other_tenant,
        source == other_source,
        revision == other_revision,
{
    reveal_strlit(":");
    let colon = seq![':'];
    assert(":"@ =~= colon);
    let count = text::decimal(text::byte_len(tenant));
    let other_count = text::decimal(text::byte_len(other_tenant));
    let tail = outside::hyphenated(source) + colon + revision;
    let other_tail = outside::hyphenated(other_source) + colon + other_revision;
    let rest = tenant + colon + tail;
    let other_rest = other_tenant + colon + other_tail;
    assert(instance_key(tenant, source, revision) =~= count + colon + rest);
    assert(instance_key(other_tenant, other_source, other_revision) =~= other_count + colon
        + other_rest);
    lemma_decimal_without_colon(text::byte_len(tenant));
    lemma_decimal_without_colon(text::byte_len(other_tenant));
    text::lemma_split_at_first(count, ':', rest);
    text::lemma_split_at_first(other_count, ':', other_rest);
    assert(count == other_count);
    assert(rest == other_rest);
    text::lemma_decimal_injective(text::byte_len(tenant), text::byte_len(other_tenant));
    assert(rest.take(tenant.len() as int) =~= tenant);
    assert(rest.take(other_tenant.len() as int) =~= other_tenant) by {
        assert(other_rest.take(other_tenant.len() as int) =~= other_tenant);
    }
    if tenant.len() <= other_tenant.len() {
        lemma_prefix_by_bytes(rest, tenant.len() as int, other_tenant.len() as int);
    } else {
        lemma_prefix_by_bytes(rest, other_tenant.len() as int, tenant.len() as int);
    }
    assert(tenant == other_tenant);
    assert(tail =~= rest.skip(tenant.len() as int + 1));
    assert(other_tail =~= other_rest.skip(other_tenant.len() as int + 1));
    outside::lemma_hyphenated(source);
    outside::lemma_hyphenated(other_source);
    text::lemma_split_at_first(outside::hyphenated(source), ':', revision);
    text::lemma_split_at_first(outside::hyphenated(other_source), ':', other_revision);
    outside::lemma_hyphenated_injective(source, other_source);
}

// Laws

/// An instance is named by the first digits of a digest over its tenant, its component and its
/// revision; the length of the tenant's name keeps them apart.
pub proof fn lemma_name_of_an_instance(start: Start)
    ensures
        instance_id(start)
            == text::hex(outside::sha256(vstd::utf8::encode_utf8(text::decimal(vstd::utf8::encode_utf8(start.tenant@).len()) + ":"@ + start.tenant@ + ":"@ + outside::hyphenated(start.source) + ":"@ + start.revision@))).take(24),
{
}

} // verus!
