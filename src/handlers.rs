//! What the request handlers decide once the native runtime has answered.
//! The native call itself is made by the caller, which hands its return code
//! in (`None` when no callback is configured).
use vstd::prelude::*;
use crate::error::ApiError;
use crate::registry::{Registry, JrtcAppState, has_id, first_with_id, ids_unique};
use crate::request::JrtcAppLoadRequest;

verus! {

/// Outcome of a create request given the native load return code.
pub open spec fn load_result(code: Option<i32>) -> Result<i32, ApiError> {
    match code {
        None => Err(ApiError::CallbackMissing),
        Some(c) => if c == -1 {
            Err(ApiError::NativeRejected)
        } else if c <= -2 {
            Err(ApiError::NativeFault)
        } else {
            Ok(c)
        },
    }
}

/// Outcome of a delete request on registry `s` given the native unload
/// return code.
pub open spec fn unload_result(s: Seq<JrtcAppState>, id: i32, code: Option<i32>) -> Result<(), ApiError> {
    match code {
        None => Err(ApiError::CallbackMissing),
        Some(c) => if c == -1 {
            Ok(())
        } else if c <= -2 {
            Err(ApiError::NativeFault)
        } else if has_id(s, id) {
            Ok(())
        } else {
            Err(ApiError::NotFound(id))
        },
    }
}

/// Whether a delete request with this return code removes a registry entry.
pub open spec fn unload_removes(s: Seq<JrtcAppState>, id: i32, code: Option<i32>) -> bool {
    code is Some && code->0 >= 0 && has_id(s, id)
}

/// Relies on chrono's `DateTime<Utc>: From<SystemTime>` and
/// `DateTime::format("%+")`: the current UTC time as RFC 3339 text, which
/// always holds a date.
#[verifier::external_body]
fn utc_timestamp() -> (r: String)
    ensures
        r@.len() > 0,
{
    chrono::DateTime::<chrono::Utc>::from(std::time::SystemTime::now()).format("%+").to_string()
}

/// Maps a native load return code to the identifier it grants or the error.
pub fn classify_load(code: Option<i32>) -> (r: Result<i32, ApiError>)
    ensures
        r == load_result(code),
{
    match code {
        None => Err(ApiError::CallbackMissing),
        Some(c) => if c == -1 {
            Err(ApiError::NativeRejected)
        } else if c <= -2 {
            Err(ApiError::NativeFault)
        } else {
            Ok(c)
        },
    }
}

/// Records the outcome of a create request: on success the native return
/// code becomes the identifier of a new entry stamped with `start_time`.
pub fn load_app(
    reg: &mut Registry,
    request: JrtcAppLoadRequest,
    code: Option<i32>,
    start_time: String,
) -> (r: Result<i32, ApiError>)
    ensures
        r == load_result(code),
        r is Ok ==> final(reg)@ == old(reg)@.push(
            (JrtcAppState { id: r->Ok_0, request: request, start_time: start_time }),
        ),
        r is Err ==> final(reg)@ == old(reg)@,
        code is Some ==> final(reg)@ == after_loads(
            old(reg)@,
            seq![(JrtcAppState { id: code->0, request: request, start_time: start_time })],
        ),
{
    let ghost e = JrtcAppState { id: code->0, request: request, start_time: start_time };
    let ghost s0 = reg@;
    proof {
        assert(seq![e].drop_last() =~= Seq::<JrtcAppState>::empty());
        assert(seq![e].last() == e);
        assert(after_loads(s0, Seq::<JrtcAppState>::empty()) == s0);
    }
    match classify_load(code) {
        Ok(id) => {
            reg.insert(JrtcAppState { id, request, start_time });
            Ok(id)
        },
        Err(e) => Err(e),
    }
}

/// Like `load_app`, stamped with the current UTC time.
pub fn load_app_now(reg: &mut Registry, request: JrtcAppLoadRequest, code: Option<i32>) -> (r: Result<
    i32,
    ApiError,
>)
    ensures
        r == load_result(code),
        r is Ok ==> {
            &&& final(reg)@.len() == old(reg)@.len() + 1
            &&& final(reg)@.drop_last() == old(reg)@
            &&& final(reg)@.last().id == r->Ok_0
            &&& final(reg)@.last().request == request
            &&& final(reg)@.last().start_time@.len() > 0
        },
        r is Err ==> final(reg)@ == old(reg)@,
{
    let start_time = utc_timestamp();
    let r = load_app(reg, request, code, start_time);
    proof {
        if r is Ok {
            assert(final(reg)@.drop_last() =~= old(reg)@);
        }
    }
    r
}

/// Records the outcome of a delete request: `-1` means the workload was
/// already gone; a non-negative code removes the entry, or reports that the
/// registry held none.
pub fn unload_app(reg: &mut Registry, id: i32, code: Option<i32>) -> (r: Result<(), ApiError>)
    ensures
        r == unload_result(old(reg)@, id, code),
        unload_removes(old(reg)@, id, code) ==> exists|i: int|
            first_with_id(old(reg)@, id, i) && final(reg)@ == old(reg)@.remove(i),
        !unload_removes(old(reg)@, id, code) ==> final(reg)@ == old(reg)@,
{
    match code {
        None => Err(ApiError::CallbackMissing),
        Some(c) => if c == -1 {
            Ok(())
        } else if c <= -2 {
            Err(ApiError::NativeFault)
        } else if reg.remove(id) {
            Ok(())
        } else {
            Err(ApiError::NotFound(id))
        },
    }
}

/// The entry with identifier `id`.
pub fn get_app(reg: &Registry, id: i32) -> (r: Result<&JrtcAppState, ApiError>)
    ensures
        match r {
            Ok(e) => exists|i: int| first_with_id(reg@, id, i) && *e == reg@[i],
            Err(err) => err == ApiError::NotFound(id) && !has_id(reg@, id),
        },
{
    match reg.find(id) {
        Some(e) => Ok(e),
        None => Err(ApiError::NotFound(id)),
    }
}

/// Every loaded workload, in the order it was accepted.
pub fn get_apps(reg: &Registry) -> (r: &Vec<JrtcAppState>)
    ensures
        r@ == reg@,
{
    reg.entries()
}

/// After a successful create whose identifier the registry did not hold, a
/// lookup of that identifier finds the new entry.
pub proof fn lemma_get_after_load(s: Seq<JrtcAppState>, e: JrtcAppState)
    requires
        !has_id(s, e.id),
    ensures
        first_with_id(s.push(e), e.id, s.len() as int),
        s.push(e)[s.len() as int] == e,
{
    assert forall|k: int| 0 <= k < s.len() implies (#[trigger] s.push(e)[k]).id != e.id by {
        assert(s.push(e)[k] == s[k]);
    }
}

/// A delete answered with `-1` by the native runtime succeeds and leaves the
/// registry as it was, whether or not it held the identifier.
pub proof fn lemma_unload_already_absent(s: Seq<JrtcAppState>, id: i32)
    ensures
        unload_result(s, id, Some(-1i32)) == Ok::<(), ApiError>(()),
        !unload_removes(s, id, Some(-1i32)),
{
}

/// Deleting an identifier twice: answered `-1` both times, both succeed;
/// answered with non-negative codes, the first succeeds and the second finds
/// nothing left in a registry whose identifiers are unique.
pub proof fn lemma_unload_twice(s: Seq<JrtcAppState>, id: i32, i: int, c1: i32, c2: i32)
    requires
        ids_unique(s),
        first_with_id(s, id, i),
        c1 >= 0,
        c2 >= 0,
    ensures
        unload_result(s, id, Some(-1i32)) == Ok::<(), ApiError>(()),
        !unload_removes(s, id, Some(-1i32)),
        unload_result(s, id, Some(c1)) == Ok::<(), ApiError>(()),
        unload_removes(s, id, Some(c1)),
        unload_result(s.remove(i), id, Some(c2)) == Err::<(), ApiError>(ApiError::NotFound(id)),
{
    assert forall|k: int| 0 <= k < s.remove(i).len() implies (#[trigger] s.remove(i)[k]).id != id by {
        if k < i {
            assert(s.remove(i)[k] == s[k]);
        } else {
            assert(s.remove(i)[k] == s[k + 1]);
        }
    }
}

/// Creates that the native runtime answers with distinct non-negative
/// identifiers, absent from the registry, all succeed; afterwards the
/// registry holds every earlier entry and each new one, with identifiers
/// still unique.
pub proof fn lemma_distinct_loads(s: Seq<JrtcAppState>, es: Seq<JrtcAppState>)
    requires
        ids_unique(s),
        ids_unique(es),
        forall|j: int| 0 <= j < es.len() ==> (#[trigger] es[j]).id >= 0 && !has_id(s, es[j].id),
    ensures
        forall|j: int| 0 <= j < es.len() ==> load_result(Some((#[trigger] es[j]).id)) == Ok::<
            i32,
            ApiError,
        >(es[j].id),
        (s + es).len() == s.len() + es.len(),
        ids_unique(s + es),
        forall|j: int| 0 <= j < es.len() ==> has_id(s + es, (#[trigger] es[j]).id),
{
    let t = s + es;
    assert forall|a: int, b: int| 0 <= a < t.len() && 0 <= b < t.len() && a != b implies t[a].id
        != t[b].id by {
        if a < s.len() && b >= s.len() {
            assert(t[b] == es[b - s.len()]);
            assert(t[a] == s[a]);
        } else if b < s.len() && a >= s.len() {
            assert(t[a] == es[a - s.len()]);
            assert(t[b] == s[b]);
        } else if a < s.len() {
            assert(t[a] == s[a] && t[b] == s[b]);
        } else {
            assert(t[a] == es[a - s.len()] && t[b] == es[b - s.len()]);
        }
    }
    assert forall|j: int| 0 <= j < es.len() implies has_id(t, (#[trigger] es[j]).id) by {
        assert(t[s.len() + j] == es[j]);
    }
}

/// Registry after a run of creates, one after the other, each answered by
/// the native runtime with the identifier of the matching entry of `es`.
pub open spec fn after_loads(s: Seq<JrtcAppState>, es: Seq<JrtcAppState>) -> Seq<JrtcAppState>
    decreases es.len(),
{
    if es.len() == 0 {
        s
    } else {
        let before = after_loads(s, es.drop_last());
        match load_result(Some(es.last().id)) {
            Ok(_) => before.push(es.last()),
            Err(_) => before,
        }
    }
}

/// Any number of creates answered with distinct non-negative identifiers,
/// absent from the registry, each add their entry: none is lost, and the
/// identifiers stay unique.
pub proof fn lemma_after_distinct_loads(s: Seq<JrtcAppState>, es: Seq<JrtcAppState>)
    requires
        ids_unique(s),
        ids_unique(es),
        forall|j: int| 0 <= j < es.len() ==> (#[trigger] es[j]).id >= 0 && !has_id(s, es[j].id),
    ensures
        after_loads(s, es) == s + es,
        after_loads(s, es).len() == s.len() + es.len(),
        ids_unique(after_loads(s, es)),
    decreases es.len(),
{
    if es.len() == 0 {
        assert(s + es =~= s);
    } else {
        let init = es.drop_last();
        assert forall|a: int, b: int| 0 <= a < init.len() && 0 <= b < init.len() && a != b implies
            init[a].id != init[b].id by {
            assert(init[a] == es[a] && init[b] == es[b]);
        }
        assert forall|j: int| 0 <= j < init.len() implies (#[trigger] init[j]).id >= 0 && !has_id(
            s,
            init[j].id,
        ) by {
            assert(init[j] == es[j]);
        }
        lemma_after_distinct_loads(s, init);
        assert(es.last() == es[es.len() - 1]);
        assert((s + init).push(es.last()) =~= s + es);
    }
    lemma_distinct_loads(s, es);
}

/// One more create after a run of creates extends the run: the state each
/// call of `load_app` leaves chains into `after_loads` of all of them.
pub proof fn lemma_after_loads_step(s: Seq<JrtcAppState>, es: Seq<JrtcAppState>, e: JrtcAppState)
    ensures
        after_loads(after_loads(s, es), seq![e]) == after_loads(s, es.push(e)),
{
    let t = after_loads(s, es);
    assert(seq![e].drop_last() =~= Seq::<JrtcAppState>::empty());
    assert(seq![e].last() == e);
    assert(after_loads(t, Seq::<JrtcAppState>::empty()) == t);
    assert(es.push(e).drop_last() =~= es);
    assert(es.push(e).last() == e);
}

} // verus!
