//! The service-level laws: what the loader keeps, what each kind of request
//! is answered, and that reads and reloads are idempotent.

use vstd::prelude::*;

use crate::cache::loaded_map;
use crate::payload::valid_entry;
use crate::router::{
    bad_request_body, body_of, decimal_of, get_method, lemma_decimal_round_trip,
    lemma_user_path_routes, not_found_body, request_outcome, response_matches, route_segment,
    status_of, u32_of_decimal, user_path, HttpResponse, RequestOutcome,
};

verus! {

/// No two store entries share an id.
pub open spec fn distinct_ids(entries: Seq<(u32, Vec<u8>)>) -> bool {
    forall|i: int, j: int|
        0 <= i < j < entries.len() ==> (#[trigger] entries[i]).0 != (#[trigger] entries[j]).0
}

/// An id no store entry carries is absent from the loaded cache.
pub proof fn lemma_loaded_map_absent(entries: Seq<(u32, Vec<u8>)>, id: u32)
    requires
        forall|i: int| 0 <= i < entries.len() ==> (#[trigger] entries[i]).0 != id,
    ensures
        !loaded_map(entries).contains_key(id),
    decreases entries.len(),
{
    if entries.len() > 0 {
        let prefix = entries.drop_last();
        assert forall|i: int| 0 <= i < prefix.len() implies (#[trigger] prefix[i]).0 != id by {
            assert(prefix[i] == entries[i]);
        }
        lemma_loaded_map_absent(prefix, id);
        assert(entries[entries.len() - 1].0 != id);
    }
}

/// An id whose entries are all undecodable or mismatched is absent from the
/// loaded cache: a record skipped at load time is indistinguishable, on the
/// request path, from one never imported.
pub proof fn lemma_loaded_map_skips_invalid(entries: Seq<(u32, Vec<u8>)>, id: u32)
    requires
        forall|i: int|
            0 <= i < entries.len() && (#[trigger] entries[i]).0 == id ==> !valid_entry(
                id,
                entries[i].1@,
            ),
    ensures
        !loaded_map(entries).contains_key(id),
    decreases entries.len(),
{
    if entries.len() > 0 {
        let prefix = entries.drop_last();
        assert forall|i: int|
            0 <= i < prefix.len() && (#[trigger] prefix[i]).0 == id implies !valid_entry(
            id,
            prefix[i].1@,
        ) by {
            assert(prefix[i] == entries[i]);
        }
        lemma_loaded_map_skips_invalid(prefix, id);
        assert(entries[entries.len() - 1] == entries.last());
    }
}

/// A store entry whose payload decodes to a record with its own key is
/// loaded with exactly those bytes, provided ids are unique in the scan.
pub proof fn lemma_loaded_map_present(entries: Seq<(u32, Vec<u8>)>, i: int)
    requires
        distinct_ids(entries),
        0 <= i < entries.len(),
        valid_entry(entries[i].0, entries[i].1@),
    ensures
        loaded_map(entries).contains_key(entries[i].0),
        loaded_map(entries)[entries[i].0] == entries[i].1@,
    decreases entries.len(),
{
    if i == entries.len() - 1 {
        assert(entries.last() == entries[i]);
    } else {
        let prefix = entries.drop_last();
        assert forall|a: int, b: int| 0 <= a < b < prefix.len() implies (#[trigger] prefix[a]).0
            != (#[trigger] prefix[b]).0 by {
            assert(prefix[a] == entries[a] && prefix[b] == entries[b]);
        }
        assert(prefix[i] == entries[i]);
        lemma_loaded_map_present(prefix, i);
        assert(entries[entries.len() - 1].0 != entries[i].0);
        assert(entries.last() == entries[entries.len() - 1]);
    }
}

/// The cache is a subset of the store: every loaded id stems from some
/// entry of the scan, with that entry's exact bytes, and only a decodable,
/// matching entry is ever loaded.
pub proof fn lemma_cache_subset_of_store(entries: Seq<(u32, Vec<u8>)>)
    ensures
        forall|id: u32|
            loaded_map(entries).contains_key(id) ==> exists|i: int|
                0 <= i < entries.len() && (#[trigger] entries[i]).0 == id && entries[i].1@
                    == loaded_map(entries)[id] && valid_entry(id, entries[i].1@),
    decreases entries.len(),
{
    if entries.len() > 0 {
        let prefix = entries.drop_last();
        lemma_cache_subset_of_store(prefix);
        let last = entries[entries.len() - 1];
        assert(entries.last() == last);
        assert forall|id: u32| loaded_map(entries).contains_key(id) implies exists|i: int|
            0 <= i < entries.len() && (#[trigger] entries[i]).0 == id && entries[i].1@
                == loaded_map(entries)[id] && valid_entry(id, entries[i].1@) by {
            if valid_entry(last.0, last.1@) && id == last.0 {
                assert(entries[entries.len() - 1].0 == id);
            } else {
                assert(loaded_map(prefix).contains_key(id));
                let i = choose|i: int|
                    0 <= i < prefix.len() && (#[trigger] prefix[i]).0 == id && prefix[i].1@
                        == loaded_map(prefix)[id] && valid_entry(id, prefix[i].1@);
                assert(entries[i] == prefix[i]);
            }
        }
    }
}

/// An admitted GET whose id segment names a store entry with a decodable,
/// matching payload is served 200 with that entry's bytes, verbatim.
pub proof fn lemma_present_id_served(
    entries: Seq<(u32, Vec<u8>)>,
    i: int,
    method: Seq<u8>,
    path: Seq<u8>,
    seg: Seq<u8>,
)
    requires
        distinct_ids(entries),
        0 <= i < entries.len(),
        valid_entry(entries[i].0, entries[i].1@),
        route_segment(method, path) == Some(seg),
        u32_of_decimal(seg) == Some(entries[i].0),
    ensures
        request_outcome(true, method, path, loaded_map(entries)) == RequestOutcome::Success(
            entries[i].0,
        ),
        status_of(request_outcome(true, method, path, loaded_map(entries))) == 200,
        body_of(request_outcome(true, method, path, loaded_map(entries)), loaded_map(entries))
            == entries[i].1@,
{
    lemma_loaded_map_present(entries, i);
}

/// An admitted GET of /user/{id}, the canonical decimal path, for a store
/// entry whose payload decodes to a matching record is served 200 with that
/// entry's bytes, verbatim.
pub proof fn lemma_get_user_id_served(entries: Seq<(u32, Vec<u8>)>, i: int)
    requires
        distinct_ids(entries),
        0 <= i < entries.len(),
        valid_entry(entries[i].0, entries[i].1@),
    ensures
        request_outcome(true, get_method(), user_path(entries[i].0), loaded_map(entries))
            == RequestOutcome::Success(entries[i].0),
        body_of(
            request_outcome(true, get_method(), user_path(entries[i].0), loaded_map(entries)),
            loaded_map(entries),
        ) == entries[i].1@,
{
    let id = entries[i].0;
    lemma_user_path_routes(id);
    lemma_decimal_round_trip(id);
    lemma_present_id_served(entries, i, get_method(), user_path(id), decimal_of(id as nat));
}

/// An admitted GET of /user/{id} for an id no store entry carries is
/// answered 404.
pub proof fn lemma_get_absent_id_not_found(entries: Seq<(u32, Vec<u8>)>, id: u32)
    requires
        forall|i: int| 0 <= i < entries.len() ==> (#[trigger] entries[i]).0 != id,
    ensures
        request_outcome(true, get_method(), user_path(id), loaded_map(entries))
            == RequestOutcome::NotFound,
        body_of(
            request_outcome(true, get_method(), user_path(id), loaded_map(entries)),
            loaded_map(entries),
        ) == not_found_body(),
{
    lemma_user_path_routes(id);
    lemma_decimal_round_trip(id);
    lemma_absent_id_not_found(entries, id, get_method(), user_path(id), decimal_of(id as nat));
}

/// An admitted GET whose well-formed id appears in no store entry is
/// answered 404.
pub proof fn lemma_absent_id_not_found(
    entries: Seq<(u32, Vec<u8>)>,
    id: u32,
    method: Seq<u8>,
    path: Seq<u8>,
    seg: Seq<u8>,
)
    requires
        forall|i: int| 0 <= i < entries.len() ==> (#[trigger] entries[i]).0 != id,
        route_segment(method, path) == Some(seg),
        u32_of_decimal(seg) == Some(id),
    ensures
        request_outcome(true, method, path, loaded_map(entries)) == RequestOutcome::NotFound,
        status_of(request_outcome(true, method, path, loaded_map(entries))) == 404,
        body_of(request_outcome(true, method, path, loaded_map(entries)), loaded_map(entries))
            == not_found_body(),
{
    lemma_loaded_map_absent(entries, id);
}

/// An admitted GET on a matched route whose id segment is no unsigned
/// 32-bit decimal integer is answered 400, whatever the cache holds.
pub proof fn lemma_invalid_segment_bad_request(
    method: Seq<u8>,
    path: Seq<u8>,
    seg: Seq<u8>,
    cache: Map<u32, Seq<u8>>,
)
    requires
        route_segment(method, path) == Some(seg),
        u32_of_decimal(seg) == Option::<u32>::None,
    ensures
        request_outcome(true, method, path, cache) == RequestOutcome::BadRequest,
        status_of(request_outcome(true, method, path, cache)) == 400,
        body_of(request_outcome(true, method, path, cache), cache) == bad_request_body(),
{
}

/// Reads are idempotent: two responses to the same admitted request over
/// the same cache agree in status and are byte-identical in body.
pub proof fn lemma_repeated_reads_identical(
    r1: HttpResponse,
    r2: HttpResponse,
    admitted: bool,
    method: Seq<u8>,
    path: Seq<u8>,
    cache: Map<u32, Seq<u8>>,
)
    requires
        response_matches(r1, admitted, method, path, cache),
        response_matches(r2, admitted, method, path, cache),
    ensures
        r1.status == r2.status,
        r1.body@ == r2.body@,
{
}

/// The loader is idempotent: two loads from an unchanged scan build caches
/// of identical content, and hence of identical size.
pub proof fn lemma_loader_idempotent(
    c1: Map<u32, Seq<u8>>,
    c2: Map<u32, Seq<u8>>,
    entries: Seq<(u32, Vec<u8>)>,
)
    requires
        c1 == loaded_map(entries),
        c2 == loaded_map(entries),
    ensures
        c1 == c2,
        c1.len() == c2.len(),
        c1.dom() == c2.dom(),
{
}

} // verus!
