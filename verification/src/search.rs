//! The search-index side of the dual write: the normalized document
//! projected from an item, tag normalization, decimal rendering of
//! identifiers, classification of the engine's HTTP answers, and the
//! health verdict. The HTTP calls themselves are the driver's job; every
//! decision about their outcomes is made — and proved — here.

use vstd::prelude::*;
use crate::text::trimmed;
use crate::item::{Item, ItemV, clone_bytes};

verus! {

/// Tags emitted for one comma-separated segment: the segment trimmed,
/// dropped entirely when nothing but whitespace remains.
pub open spec fn emit_tag(cur: Seq<u8>) -> Seq<Seq<u8>> {
    if trimmed(cur).len() > 0 {
        seq![trimmed(cur)]
    } else {
        Seq::empty()
    }
}

/// Tag list of `s` with `cur` as the segment read so far: segments are
/// split on commas, trimmed, and empty ones dropped, in order.
pub open spec fn norm_rec(s: Seq<u8>, cur: Seq<u8>) -> Seq<Seq<u8>>
    decreases s.len(),
{
    if s.len() == 0 {
        emit_tag(cur)
    } else if s[0] == 44 {
        emit_tag(cur) + norm_rec(s.drop_first(), Seq::empty())
    } else {
        norm_rec(s.drop_first(), cur.push(s[0]))
    }
}

/// The normalized tag list of a raw comma-separated tag string.
pub open spec fn norm_tags(s: Seq<u8>) -> Seq<Seq<u8>> {
    norm_rec(s, Seq::empty())
}

/// Normalized tag list of an item's raw tag text: comma-separated
/// segments, whitespace-trimmed, empty entries dropped, order kept;
/// absent input yields the empty list.
pub fn tags_to_array(tags: &Option<Vec<u8>>) -> (r: Vec<Vec<u8>>)
    ensures
        r@.map_values(|t: Vec<u8>| t@) == match tags {
            Some(t) => norm_tags(t@),
            None => Seq::<Seq<u8>>::empty(),
        },
{
    let t = match tags {
        Some(t) => t,
        None => {
            let r: Vec<Vec<u8>> = Vec::new();
            proof {
                assert(r@.map_values(|x: Vec<u8>| x@) =~= Seq::<Seq<u8>>::empty());
            }
            return r;
        },
    };
    let len = t.len();
    let mut out: Vec<Vec<u8>> = Vec::new();
    let mut cur: Vec<u8> = Vec::new();
    let mut i: usize = 0;
    proof {
        assert(t@.subrange(0, len as int) =~= t@);
        assert(out@.map_values(|x: Vec<u8>| x@) =~= Seq::<Seq<u8>>::empty());
    }
    while i < len
        invariant
            i <= len,
            len == t@.len(),
            norm_tags(t@) == out@.map_values(|x: Vec<u8>| x@) + norm_rec(
                t@.subrange(i as int, len as int),
                cur@,
            ),
        decreases len - i,
    {
        let ghost rem = t@.subrange(i as int, len as int);
        proof {
            assert(rem[0] == t@[i as int]);
            assert(rem.drop_first() =~= t@.subrange(i + 1, len as int));
        }
        if t[i] == 44 {
            let tag = crate::text::trim_bytes(cur.as_slice());
            proof {
                assert(norm_rec(rem, cur@) == emit_tag(cur@) + norm_rec(
                    rem.drop_first(),
                    Seq::empty(),
                ));
            }
            if tag.len() > 0 {
                let ghost old_out = out@;
                out.push(tag);
                proof {
                    assert(out@.map_values(|x: Vec<u8>| x@) =~= old_out.map_values(
                        |x: Vec<u8>| x@,
                    ).push(tag@));
                    assert(emit_tag(cur@) =~= seq![trimmed(cur@)]);
                    assert(old_out.map_values(|x: Vec<u8>| x@) + (emit_tag(cur@) + norm_rec(
                        rem.drop_first(),
                        Seq::empty(),
                    )) =~= out@.map_values(|x: Vec<u8>| x@) + norm_rec(
                        rem.drop_first(),
                        Seq::empty(),
                    ));
                }
            } else {
                proof {
                    assert(emit_tag(cur@) =~= Seq::<Seq<u8>>::empty());
                    assert(out@.map_values(|x: Vec<u8>| x@) + (emit_tag(cur@) + norm_rec(
                        rem.drop_first(),
                        Seq::empty(),
                    )) =~= out@.map_values(|x: Vec<u8>| x@) + norm_rec(
                        rem.drop_first(),
                        Seq::empty(),
                    ));
                }
            }
            cur = Vec::new();
        } else {
            proof {
                assert(norm_rec(rem, cur@) == norm_rec(rem.drop_first(), cur@.push(t@[i as int])));
            }
            cur.push(t[i]);
        }
        i += 1;
    }
    proof {
        assert(t@.subrange(len as int, len as int) =~= Seq::<u8>::empty());
        assert(norm_rec(Seq::empty(), cur@) == emit_tag(cur@));
    }
    let tag = crate::text::trim_bytes(cur.as_slice());
    if tag.len() > 0 {
        let ghost old_out = out@;
        out.push(tag);
        proof {
            assert(out@.map_values(|x: Vec<u8>| x@) =~= old_out.map_values(|x: Vec<u8>| x@).push(
                tag@,
            ));
            assert(emit_tag(cur@) =~= seq![trimmed(cur@)]);
            assert(old_out.map_values(|x: Vec<u8>| x@) + emit_tag(cur@) =~= out@.map_values(
                |x: Vec<u8>| x@,
            ));
        }
    } else {
        proof {
            assert(emit_tag(cur@) =~= Seq::<Seq<u8>>::empty());
            assert(out@.map_values(|x: Vec<u8>| x@) + emit_tag(cur@) =~= out@.map_values(
                |x: Vec<u8>| x@,
            ));
        }
    }
    out
}

/// Decimal digits of a non-negative number, most significant first.
pub open spec fn dec_u(n: nat) -> Seq<u8>
    decreases n,
{
    if n < 10 {
        seq![(48 + n) as u8]
    } else {
        dec_u(n / 10).push((48 + n % 10) as u8)
    }
}

/// Decimal rendering of a signed number: a minus sign for negatives,
/// then the digits.
pub open spec fn dec_i(n: int) -> Seq<u8> {
    if n < 0 {
        seq![45u8] + dec_u((-n) as nat)
    } else {
        dec_u(n as nat)
    }
}

/// A decimal digit sequence is never empty.
pub proof fn lemma_dec_u_len(n: nat)
    ensures
        dec_u(n).len() >= 1,
    decreases n,
{
    if n >= 10 {
        assert((n as int) / 10 < n as int) by (nonlinear_arith)
            requires
                n >= 10,
        ;
        lemma_dec_u_len(n / 10);
    }
}

/// Distinct numbers render to distinct digit sequences.
pub proof fn lemma_dec_u_injective(a: nat, b: nat)
    requires
        dec_u(a) == dec_u(b),
    ensures
        a == b,
    decreases a + b,
{
    if a < 10 && b < 10 {
        assert(dec_u(a)[0] == dec_u(b)[0]);
        assert(dec_u(a)[0] == (48 + a) as u8);
        assert(dec_u(b)[0] == (48 + b) as u8);
        assert(((48 + a) as u8) as int == 48 + a);
        assert(((48 + b) as u8) as int == 48 + b);
    } else if a < 10 {
        lemma_dec_u_len(b / 10);
        assert(dec_u(b).len() >= 2);
        assert(false);
    } else if b < 10 {
        lemma_dec_u_len(a / 10);
        assert(dec_u(a).len() >= 2);
        assert(false);
    } else {
        assert(dec_u(a).last() == dec_u(b).last());
        assert(dec_u(a).last() == (48 + a % 10) as u8);
        assert(dec_u(b).last() == (48 + b % 10) as u8);
        assert(0 <= a % 10 < 10 && 0 <= b % 10 < 10);
        assert(((48 + a % 10) as u8) as int == 48 + a % 10);
        assert(((48 + b % 10) as u8) as int == 48 + b % 10);
        assert(a % 10 == b % 10);
        assert(dec_u(a).drop_last() =~= dec_u(a / 10));
        assert(dec_u(b).drop_last() =~= dec_u(b / 10));
        assert((a as int) / 10 < a as int && (b as int) / 10 < b as int) by (nonlinear_arith)
            requires
                a >= 10 && b >= 10,
        ;
        lemma_dec_u_injective(a / 10, b / 10);
        vstd::arithmetic::div_mod::lemma_fundamental_div_mod(a as int, 10);
        vstd::arithmetic::div_mod::lemma_fundamental_div_mod(b as int, 10);
    }
}

/// Decimal digits of `n`, exactly `dec_u`.
pub fn format_u64(n: u64) -> (r: Vec<u8>)
    ensures
        r@ == dec_u(n as nat),
    decreases n,
{
    if n < 10 {
        let mut r: Vec<u8> = Vec::new();
        r.push(48 + n as u8);
        proof {
            assert(r@ =~= dec_u(n as nat));
        }
        r
    } else {
        proof {
            assert((n as int) / 10 < n as int) by (nonlinear_arith)
                requires
                    n >= 10,
            ;
        }
        let mut r = format_u64(n / 10);
        r.push(48 + (n % 10) as u8);
        proof {
            assert(r@ =~= dec_u(n as nat));
        }
        r
    }
}

/// Decimal rendering of a signed identifier, exactly `dec_i`.
pub fn format_i32(n: i32) -> (r: Vec<u8>)
    ensures
        r@ == dec_i(n as int),
{
    if n >= 0 {
        format_u64(n as u64)
    } else {
        let mut r: Vec<u8> = Vec::new();
        r.push(45u8);
        let mut digits = format_u64((-(n as i64)) as u64);
        r.append(&mut digits);
        proof {
            assert(r@ =~= dec_i(n as int));
        }
        r
    }
}

/// Mathematical value of a `SearchDocument`.
pub struct DocV {
    pub id: Seq<u8>,
    pub title: Seq<u8>,
    pub content: Seq<u8>,
    pub item_type: Seq<u8>,
    pub tags: Seq<Seq<u8>>,
    pub created_at: int,
    pub updated_at: int,
}

/// The disposable projection of an item that the search index stores:
/// the identifier in decimal string form, absent content as the empty
/// string, tags normalized, timestamps as epoch seconds.
#[derive(Debug)]
pub struct SearchDocument {
    pub id: Vec<u8>,
    pub title: Vec<u8>,
    pub content: Vec<u8>,
    pub item_type: Vec<u8>,
    pub tags: Vec<Vec<u8>>,
    pub created_at: i64,
    pub updated_at: i64,
}

impl View for SearchDocument {
    type V = DocV;

    open spec fn view(&self) -> DocV {
        DocV {
            id: self.id@,
            title: self.title@,
            content: self.content@,
            item_type: self.item_type@,
            tags: self.tags@.map_values(|t: Vec<u8>| t@),
            created_at: self.created_at as int,
            updated_at: self.updated_at as int,
        }
    }
}

/// The document an item projects to.
pub open spec fn spec_doc_of(item: ItemV) -> DocV {
    DocV {
        id: dec_i(item.id),
        title: item.title,
        content: match item.content {
            Some(c) => c,
            None => Seq::empty(),
        },
        item_type: item.item_type,
        tags: match item.tags {
            Some(t) => norm_tags(t),
            None => Seq::empty(),
        },
        created_at: item.created_at.spec_epoch_seconds(),
        updated_at: item.updated_at.spec_epoch_seconds(),
    }
}

/// The normalized search document for an item, exactly its projection
/// under `spec_doc_of`.
pub fn document_for_item(item: &Item) -> (d: SearchDocument)
    requires
        item.wf(),
    ensures
        d@ == spec_doc_of(item@),
{
    let content = match &item.content {
        Some(c) => clone_bytes(c),
        None => Vec::new(),
    };
    let d = SearchDocument {
        id: format_i32(item.id),
        title: clone_bytes(&item.title),
        content,
        item_type: clone_bytes(&item.item_type),
        tags: tags_to_array(&item.tags),
        created_at: crate::time::timestamp(item.created_at),
        updated_at: crate::time::timestamp(item.updated_at),
    };
    proof {
        if item.content is None {
            assert(d@.content =~= spec_doc_of(item@).content);
        }
        if item.tags is None {
            assert(d@.tags =~= spec_doc_of(item@).tags);
        }
    }
    d
}

/// Ways a search-engine interaction can fail. Process-management failures
/// belong to the sidecar supervisor; the HTTP ones record the rejecting
/// status. Flattening to display text happens at the outermost boundary.
#[derive(PartialEq, Eq, Structural, Clone, Copy, Debug)]
pub enum TypesenseError {
    SidecarCreation,
    ProcessSpawn,
    ProcessState,
    NoProcessRunning,
    ProcessKill,
    DataDir,
    HttpTransport,
    HttpStatus(u16),
}

/// The bytes of `string`, the engine's text field type.
pub open spec fn string_type_bytes() -> Seq<u8> {
    seq![115u8, 116u8, 114u8, 105u8, 110u8, 103u8]
}

/// The bytes of `string[]`, the engine's string-array field type.
pub open spec fn string_array_type_bytes() -> Seq<u8> {
    string_type_bytes() + seq![91u8, 93u8]
}

/// The bytes of `int64`, the engine's 64-bit integer field type.
pub open spec fn int64_type_bytes() -> Seq<u8> {
    seq![105u8, 110u8, 116u8, 54u8, 52u8]
}

/// The bytes of `updated_at`, the collection's default sort key.
pub open spec fn updated_at_field_bytes() -> Seq<u8> {
    seq![117u8, 112u8, 100u8, 97u8, 116u8, 101u8, 100u8, 95u8, 97u8, 116u8]
}

/// The fixed schema of the items collection, as (name, type, facet)
/// triples: string fields for identifier, title, content and item type,
/// tags as a faceted string array, the item type faceted too, and both
/// timestamps as 64-bit integers.
pub open spec fn spec_collection_schema() -> Seq<(Seq<u8>, Seq<u8>, bool)> {
    seq![
        (seq![105u8, 100u8], string_type_bytes(), false),
        (seq![116u8, 105u8, 116u8, 108u8, 101u8], string_type_bytes(), false),
        (seq![99u8, 111u8, 110u8, 116u8, 101u8, 110u8, 116u8], string_type_bytes(), false),
        (
            seq![105u8, 116u8, 101u8, 109u8, 95u8, 116u8, 121u8, 112u8, 101u8],
            string_type_bytes(),
            true,
        ),
        (seq![116u8, 97u8, 103u8, 115u8], string_array_type_bytes(), true),
        (
            seq![99u8, 114u8, 101u8, 97u8, 116u8, 101u8, 100u8, 95u8, 97u8, 116u8],
            int64_type_bytes(),
            false,
        ),
        (updated_at_field_bytes(), int64_type_bytes(), false),
    ]
}

/// One field of the collection schema handed to the engine's create
/// call: its name, its engine type, and whether it is a facet.
#[derive(Debug)]
pub struct SchemaField {
    pub name: Vec<u8>,
    pub field_type: Vec<u8>,
    pub facet: bool,
}

/// The collection schema, exactly `spec_collection_schema`.
pub fn collection_schema() -> (r: Vec<SchemaField>)
    ensures
        r@.map_values(|f: SchemaField| (f.name@, f.field_type@, f.facet))
            == spec_collection_schema(),
{
    let mut r: Vec<SchemaField> = Vec::new();
    r.push(
        SchemaField {
            name: vec![105u8, 100u8],
            field_type: vec![115u8, 116u8, 114u8, 105u8, 110u8, 103u8],
            facet: false,
        },
    );
    r.push(
        SchemaField {
            name: vec![116u8, 105u8, 116u8, 108u8, 101u8],
            field_type: vec![115u8, 116u8, 114u8, 105u8, 110u8, 103u8],
            facet: false,
        },
    );
    r.push(
        SchemaField {
            name: vec![99u8, 111u8, 110u8, 116u8, 101u8, 110u8, 116u8],
            field_type: vec![115u8, 116u8, 114u8, 105u8, 110u8, 103u8],
            facet: false,
        },
    );
    r.push(
        SchemaField {
            name: vec![105u8, 116u8, 101u8, 109u8, 95u8, 116u8, 121u8, 112u8, 101u8],
            field_type: vec![115u8, 116u8, 114u8, 105u8, 110u8, 103u8],
            facet: true,
        },
    );
    r.push(
        SchemaField {
            name: vec![116u8, 97u8, 103u8, 115u8],
            field_type: vec![115u8, 116u8, 114u8, 105u8, 110u8, 103u8, 91u8, 93u8],
            facet: true,
        },
    );
    r.push(
        SchemaField {
            name: vec![99u8, 114u8, 101u8, 97u8, 116u8, 101u8, 100u8, 95u8, 97u8, 116u8],
            field_type: vec![105u8, 110u8, 116u8, 54u8, 52u8],
            facet: false,
        },
    );
    r.push(
        SchemaField {
            name: vec![117u8, 112u8, 100u8, 97u8, 116u8, 101u8, 100u8, 95u8, 97u8, 116u8],
            field_type: vec![105u8, 110u8, 116u8, 54u8, 52u8],
            facet: false,
        },
    );
    proof {
        assert(r@.map_values(|f: SchemaField| (f.name@, f.field_type@, f.facet))
            =~~= spec_collection_schema());
    }
    r
}

/// The collection's default sort key: the `updated_at` field, the last
/// entry of the schema.
pub fn default_sorting_field() -> (r: Vec<u8>)
    ensures
        r@ == updated_at_field_bytes(),
        r@ == spec_collection_schema()[6].0,
{
    let r = vec![117u8, 112u8, 100u8, 97u8, 116u8, 101u8, 100u8, 95u8, 97u8, 116u8];
    proof {
        assert(r@ =~= updated_at_field_bytes());
    }
    r
}

/// Grace delay in seconds before the first health poll, giving the
/// process time to bind its port.
pub const STARTUP_DELAY_SECS: u64 = 2;

/// Seconds between health polls.
pub const HEALTH_CHECK_INTERVAL_SECS: u64 = 5;

/// An HTTP status in the success class.
pub open spec fn is_success_status(status: u16) -> bool {
    200 <= status < 300
}

/// Whether `status` reports success.
pub fn status_is_success(status: u16) -> (r: bool)
    ensures
        r == is_success_status(status),
{
    200 <= status && status < 300
}

/// What the collection-existence probe's status means.
#[derive(PartialEq, Eq, Structural, Clone, Copy, Debug)]
pub enum CollectionProbe {
    Present,
    Missing,
    Rejected(u16),
}

/// Classifies the status of a collection-existence check: success means
/// the collection is already there, 404 that it must be created, and
/// anything else is a rejection carrying its status.
pub fn interpret_collection_check(status: u16) -> (r: CollectionProbe)
    ensures
        r == (if is_success_status(status) {
            CollectionProbe::Present
        } else if status == 404 {
            CollectionProbe::Missing
        } else {
            CollectionProbe::Rejected(status)
        }),
{
    if status_is_success(status) {
        CollectionProbe::Present
    } else if status == 404 {
        CollectionProbe::Missing
    } else {
        CollectionProbe::Rejected(status)
    }
}

/// A collection creation that succeeded or lost a creation race.
pub open spec fn create_accepted(status: u16) -> bool {
    is_success_status(status) || status == 409
}

/// Classifies the status of a collection creation: success and a 409
/// conflict (another creator won the race) both count as success.
pub fn interpret_collection_create(status: u16) -> (r: Result<(), TypesenseError>)
    ensures
        r is Ok <==> create_accepted(status),
        r matches Err(e) ==> e == TypesenseError::HttpStatus(status),
{
    if status_is_success(status) || status == 409 {
        Ok(())
    } else {
        Err(TypesenseError::HttpStatus(status))
    }
}

/// Classifies the status of a document upsert: only the success class
/// counts.
pub fn interpret_upsert_response(status: u16) -> (r: Result<(), TypesenseError>)
    ensures
        r is Ok <==> is_success_status(status),
        r matches Err(e) ==> e == TypesenseError::HttpStatus(status),
{
    if status_is_success(status) {
        Ok(())
    } else {
        Err(TypesenseError::HttpStatus(status))
    }
}

/// A document deletion that succeeded or found nothing to delete.
pub open spec fn delete_accepted(status: u16) -> bool {
    is_success_status(status) || status == 404
}

/// Classifies the status of a document deletion: success and 404 (the
/// document was already absent) both count as success.
pub fn interpret_delete_response(status: u16) -> (r: Result<(), TypesenseError>)
    ensures
        r is Ok <==> delete_accepted(status),
        r matches Err(e) ==> e == TypesenseError::HttpStatus(status),
{
    if status_is_success(status) || status == 404 {
        Ok(())
    } else {
        Err(TypesenseError::HttpStatus(status))
    }
}

/// The status the engine answers to a deletion, per its documented API:
/// success while the document exists, 404 once it is gone.
pub open spec fn spec_engine_delete_status(present: bool) -> u16 {
    if present {
        200
    } else {
        404
    }
}

/// Deleting a document is idempotent: whether the document is still
/// present or already gone, the engine's answer classifies as success,
/// so a second delete of the same id succeeds exactly like the first.
pub proof fn lemma_delete_idempotent()
    ensures
        forall|present: bool| delete_accepted(spec_engine_delete_status(present)),
{
}

/// The payload of the engine's health endpoint.
#[derive(PartialEq, Eq, Structural, Clone, Copy, Debug)]
pub struct HealthResponse {
    pub ok: bool,
}

/// An ephemeral health snapshot, produced by polling and consumed by the
/// presentation layer; never persisted.
#[derive(Debug)]
pub struct ServerStatus {
    pub is_healthy: bool,
    pub message: String,
}

impl ServerStatus {
    /// The healthy snapshot with its fixed message.
    pub fn healthy() -> (s: Self)
        ensures
            s.is_healthy,
            s.message@ == "Typesense server is healthy"@,
    {
        ServerStatus { is_healthy: true, message: "Typesense server is healthy".to_owned() }
    }

    /// An unhealthy snapshot carrying the given reason.
    pub fn unhealthy(message: String) -> (s: Self)
        ensures
            !s.is_healthy,
            s.message@ == message@,
    {
        ServerStatus { is_healthy: false, message }
    }
}

/// What one health poll observed: no connection, or a response with its
/// status and its payload where the payload parsed.
#[derive(PartialEq, Eq, Structural, Clone, Copy, Debug)]
pub enum HealthProbe {
    ConnectFailed,
    Responded { status: u16, body: Option<HealthResponse> },
}

/// Whether a probe observation means the server is healthy: it answered,
/// in the success class, with a payload that parsed and signals OK.
pub open spec fn probe_is_healthy(probe: HealthProbe) -> bool {
    probe matches HealthProbe::Responded { status, body } && is_success_status(status) && body
        == Some(HealthResponse { ok: true })
}

/// The health snapshot for one poll observation: healthy exactly under
/// `probe_is_healthy`, otherwise unhealthy with the reason named.
pub fn check_health(probe: HealthProbe) -> (s: ServerStatus)
    ensures
        s.is_healthy == probe_is_healthy(probe),
        match probe {
            HealthProbe::ConnectFailed => s.message@ == "Failed to connect to Typesense server"@,
            HealthProbe::Responded { status, body } => if !is_success_status(status) {
                s.message@ == "Typesense server health check failed with an error status"@
            } else {
                match body {
                    None => s.message@ == "Invalid health response format from Typesense server"@,
                    Some(health) => if health.ok {
                        s.message@ == "Typesense server is healthy"@
                    } else {
                        s.message@ == "Typesense server health check failed"@
                    },
                }
            },
        },
{
    match probe {
        HealthProbe::ConnectFailed => ServerStatus::unhealthy(
            "Failed to connect to Typesense server".to_owned(),
        ),
        HealthProbe::Responded { status, body } => {
            if !status_is_success(status) {
                ServerStatus::unhealthy(
                    "Typesense server health check failed with an error status".to_owned(),
                )
            } else {
                match body {
                    None => ServerStatus::unhealthy(
                        "Invalid health response format from Typesense server".to_owned(),
                    ),
                    Some(health) => {
                        if health.ok {
                            ServerStatus::healthy()
                        } else {
                            ServerStatus::unhealthy(
                                "Typesense server health check failed".to_owned(),
                            )
                        }
                    },
                }
            }
        },
    }
}

} // verus!
