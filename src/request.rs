//! Workload requests as submitted by callers, and the fixed-capacity
//! descriptor handed to the native runtime.
use vstd::prelude::*;
use crate::error::{ApiError, Field};
use crate::text::{expand, expand_vars, contains_nul, has_nul, env_nul_free, lemma_expand_nul_free};

verus! {

/// Most entries that each collection of a native descriptor can hold.
pub const MAX_ENTRIES: usize = 255;

/// A key and its value, both text.
pub struct KeyValuePair {
    pub key: String,
    pub val: String,
}

/// A workload as a caller describes it.
pub struct JrtcAppLoadRequest {
    pub app: Vec<u8>,
    pub app_name: String,
    pub runtime_us: u32,
    pub deadline_us: u32,
    pub period_us: u32,
    pub ioq_size: u32,
    pub app_path: String,
    pub app_type: String,
    pub app_params: Vec<KeyValuePair>,
    pub device_mapping: Vec<KeyValuePair>,
    pub app_modules: Vec<String>,
}

/// The descriptor built for one native load call. The payload itself is not
/// copied: the caller passes the request's bytes along with `app_size`.
pub struct LoadAppRequest {
    pub app_size: usize,
    pub app_name: String,
    pub runtime_us: u32,
    pub deadline_us: u32,
    pub period_us: u32,
    pub ioq_size: u32,
    pub app_path: String,
    pub app_type: String,
    pub app_params: Vec<KeyValuePair>,
    pub device_mapping: Vec<KeyValuePair>,
    pub app_modules: Vec<String>,
}

pub open spec fn pair_has_nul(p: KeyValuePair) -> bool {
    has_nul(p.key@) || has_nul(p.val@)
}

pub open spec fn pairs_have_nul(s: Seq<KeyValuePair>) -> bool {
    exists|i: int| 0 <= i < s.len() && pair_has_nul(#[trigger] s[i])
}

pub open spec fn strings_have_nul(s: Seq<String>) -> bool {
    exists|i: int| 0 <= i < s.len() && has_nul(#[trigger] s[i]@)
}

/// The first field, in declaration order, that holds an embedded NUL.
pub open spec fn malformed_field(r: JrtcAppLoadRequest) -> Option<Field> {
    if has_nul(r.app_name@) {
        Some(Field::AppName)
    } else if has_nul(r.app_path@) {
        Some(Field::AppPath)
    } else if has_nul(r.app_type@) {
        Some(Field::AppType)
    } else if pairs_have_nul(r.app_params@) {
        Some(Field::AppParams)
    } else if pairs_have_nul(r.device_mapping@) {
        Some(Field::DeviceMapping)
    } else if strings_have_nul(r.app_modules@) {
        Some(Field::AppModules)
    } else {
        None
    }
}

/// Number of entries of a collection of `n` that a descriptor keeps.
pub open spec fn capped_len(n: nat) -> nat {
    if n > MAX_ENTRIES { MAX_ENTRIES as nat } else { n }
}

/// `d` holds the first `MAX_ENTRIES` pairs of `s`, with each value passed
/// through expansion when `expanded` is set.
pub open spec fn pairs_describe(
    d: Seq<KeyValuePair>,
    s: Seq<KeyValuePair>,
    env: Seq<KeyValuePair>,
    expanded: bool,
) -> bool {
    &&& d.len() == capped_len(s.len())
    &&& forall|i: int| 0 <= i < d.len() ==> {
        &&& (#[trigger] d[i]).key@ == s[i].key@
        &&& d[i].val@ == if expanded { expand(s[i].val@, env) } else { s[i].val@ }
    }
}

/// `d` holds the first `MAX_ENTRIES` strings of `s`.
pub open spec fn strings_describe(d: Seq<String>, s: Seq<String>) -> bool {
    &&& d.len() == capped_len(s.len())
    &&& forall|i: int| 0 <= i < d.len() ==> (#[trigger] d[i])@ == s[i]@
}

/// `d` is the descriptor of `r` under environment `env`.
pub open spec fn describes(d: LoadAppRequest, r: JrtcAppLoadRequest, env: Seq<KeyValuePair>) -> bool {
    &&& d.app_size == r.app@.len()
    &&& d.app_name@ == r.app_name@
    &&& d.runtime_us == r.runtime_us
    &&& d.deadline_us == r.deadline_us
    &&& d.period_us == r.period_us
    &&& d.ioq_size == r.ioq_size
    &&& d.app_path@ == r.app_path@
    &&& d.app_type@ == r.app_type@
    &&& pairs_describe(d.app_params@, r.app_params@, env, true)
    &&& pairs_describe(d.device_mapping@, r.device_mapping@, env, false)
    &&& strings_describe(d.app_modules@, r.app_modules@)
}

fn copy_string(s: &String) -> (r: String)
    ensures
        r@ == s@,
{
    s.clone()
}

fn pair_contains_nul(p: &KeyValuePair) -> (r: bool)
    ensures
        r == pair_has_nul(*p),
{
    contains_nul(&p.key) || contains_nul(&p.val)
}

fn pairs_contain_nul(s: &Vec<KeyValuePair>) -> (r: bool)
    ensures
        r == pairs_have_nul(s@),
{
    let mut i: usize = 0;
    while i < s.len()
        invariant
            i <= s.len(),
            forall|k: int| 0 <= k < i ==> !pair_has_nul(#[trigger] s@[k]),
        decreases s.len() - i,
    {
        if pair_contains_nul(&s[i]) {
            return true;
        }
        i = i + 1;
    }
    false
}

fn strings_contain_nul(s: &Vec<String>) -> (r: bool)
    ensures
        r == strings_have_nul(s@),
{
    let mut i: usize = 0;
    while i < s.len()
        invariant
            i <= s.len(),
            forall|k: int| 0 <= k < i ==> !has_nul(#[trigger] s@[k]@),
        decreases s.len() - i,
    {
        if contains_nul(&s[i]) {
            return true;
        }
        i = i + 1;
    }
    false
}

/// The first field of `r` that holds an embedded NUL, if any.
pub fn find_malformed_field(r: &JrtcAppLoadRequest) -> (f: Option<Field>)
    ensures
        f == malformed_field(*r),
{
    if contains_nul(&r.app_name) {
        Some(Field::AppName)
    } else if contains_nul(&r.app_path) {
        Some(Field::AppPath)
    } else if contains_nul(&r.app_type) {
        Some(Field::AppType)
    } else if pairs_contain_nul(&r.app_params) {
        Some(Field::AppParams)
    } else if pairs_contain_nul(&r.device_mapping) {
        Some(Field::DeviceMapping)
    } else if strings_contain_nul(&r.app_modules) {
        Some(Field::AppModules)
    } else {
        None
    }
}

/// Copies at most `MAX_ENTRIES` pairs, expanding values when `expanded` is set.
fn copy_pairs(s: &Vec<KeyValuePair>, env: &Vec<KeyValuePair>, expanded: bool) -> (d: Vec<KeyValuePair>)
    ensures
        pairs_describe(d@, s@, env@, expanded),
{
    let mut d: Vec<KeyValuePair> = Vec::new();
    let mut i: usize = 0;
    while i < s.len() && i < MAX_ENTRIES
        invariant
            i <= s.len(),
            i <= MAX_ENTRIES,
            d@.len() == i,
            forall|k: int| 0 <= k < i ==> {
                &&& (#[trigger] d@[k]).key@ == s@[k].key@
                &&& d@[k].val@ == if expanded { expand(s@[k].val@, env@) } else { s@[k].val@ }
            },
        decreases s.len() - i,
    {
        let key = copy_string(&s[i].key);
        let val = if expanded { expand_vars(&s[i].val, env) } else { copy_string(&s[i].val) };
        d.push(KeyValuePair { key, val });
        i = i + 1;
    }
    d
}

/// Copies at most `MAX_ENTRIES` strings.
fn copy_strings(s: &Vec<String>) -> (d: Vec<String>)
    ensures
        strings_describe(d@, s@),
{
    let mut d: Vec<String> = Vec::new();
    let mut i: usize = 0;
    while i < s.len() && i < MAX_ENTRIES
        invariant
            i <= s.len(),
            i <= MAX_ENTRIES,
            d@.len() == i,
            forall|k: int| 0 <= k < i ==> (#[trigger] d@[k])@ == s@[k]@,
        decreases s.len() - i,
    {
        d.push(copy_string(&s[i]));
        i = i + 1;
    }
    d
}

/// Builds the native descriptor of `r`: parameter values are expanded
/// against `env`, each collection keeps its first `MAX_ENTRIES` entries, and
/// a request with an embedded NUL in any textual field is refused.
pub fn marshal(r: &JrtcAppLoadRequest, env: &Vec<KeyValuePair>) -> (res: Result<LoadAppRequest, ApiError>)
    ensures
        match malformed_field(*r) {
            Some(f) => res == Err::<LoadAppRequest, ApiError>(ApiError::MalformedField(f)),
            None => res is Ok && describes(res->Ok_0, *r, env@),
        },
{
    match find_malformed_field(r) {
        Some(f) => Err(ApiError::MalformedField(f)),
        None => Ok(LoadAppRequest {
            app_size: r.app.len(),
            app_name: copy_string(&r.app_name),
            runtime_us: r.runtime_us,
            deadline_us: r.deadline_us,
            period_us: r.period_us,
            ioq_size: r.ioq_size,
            app_path: copy_string(&r.app_path),
            app_type: copy_string(&r.app_type),
            app_params: copy_pairs(&r.app_params, env, true),
            device_mapping: copy_pairs(&r.device_mapping, env, false),
            app_modules: copy_strings(&r.app_modules),
        }),
    }
}

/// Some textual field of `r`, or some entry of its collections, holds an
/// embedded NUL.
pub open spec fn any_field_has_nul(r: JrtcAppLoadRequest) -> bool {
    has_nul(r.app_name@) || has_nul(r.app_path@) || has_nul(r.app_type@) || pairs_have_nul(
        r.app_params@,
    ) || pairs_have_nul(r.device_mapping@) || strings_have_nul(r.app_modules@)
}

/// A request is refused exactly when one of its fields holds an embedded
/// NUL; a refused request yields no descriptor, so no native call follows.
pub proof fn lemma_nul_refused(r: JrtcAppLoadRequest)
    ensures
        any_field_has_nul(r) <==> malformed_field(r) is Some,
{
}

/// Every string of a descriptor built from an accepted request is free of
/// NUL, given NUL-free environment values: each converts to a native string.
pub proof fn lemma_descriptor_nul_free(d: LoadAppRequest, r: JrtcAppLoadRequest, env: Seq<KeyValuePair>)
    requires
        describes(d, r, env),
        malformed_field(r) is None,
        env_nul_free(env),
    ensures
        !has_nul(d.app_name@),
        !has_nul(d.app_path@),
        !has_nul(d.app_type@),
        !pairs_have_nul(d.app_params@),
        !pairs_have_nul(d.device_mapping@),
        !strings_have_nul(d.app_modules@),
{
    assert forall|i: int| 0 <= i < d.app_params@.len() implies !pair_has_nul(
        #[trigger] d.app_params@[i],
    ) by {
        assert(!pair_has_nul(r.app_params@[i]));
        lemma_expand_nul_free(r.app_params@[i].val@, env);
    }
    assert forall|i: int| 0 <= i < d.device_mapping@.len() implies !pair_has_nul(
        #[trigger] d.device_mapping@[i],
    ) by {
        assert(!pair_has_nul(r.device_mapping@[i]));
    }
    assert forall|i: int| 0 <= i < d.app_modules@.len() implies !has_nul(
        (#[trigger] d.app_modules@[i])@,
    ) by {
        assert(!has_nul(r.app_modules@[i]@));
    }
}

/// No two pairs of `s` share a key, as in a map.
pub open spec fn keys_unique(s: Seq<KeyValuePair>) -> bool {
    forall|i: int, j: int| 0 <= i < s.len() && 0 <= j < s.len() && i != j ==> s[i].key@ != s[j].key@
}

/// A request whose parameter collections are maps: keys are unique.
pub open spec fn request_wf(r: JrtcAppLoadRequest) -> bool {
    keys_unique(r.app_params@) && keys_unique(r.device_mapping@)
}

proof fn lemma_pairs_keys_unique(d: Seq<KeyValuePair>, s: Seq<KeyValuePair>, env: Seq<KeyValuePair>, expanded: bool)
    requires
        pairs_describe(d, s, env, expanded),
        keys_unique(s),
    ensures
        keys_unique(d),
{
    assert forall|i: int, j: int| 0 <= i < d.len() && 0 <= j < d.len() && i != j implies d[i].key@
        != d[j].key@ by {
        assert(d[i].key@ == s[i].key@ && d[j].key@ == s[j].key@);
    }
}

/// The descriptor of a request with unique keys has unique keys too.
pub proof fn lemma_descriptor_keys_unique(d: LoadAppRequest, r: JrtcAppLoadRequest, env: Seq<KeyValuePair>)
    requires
        describes(d, r, env),
        request_wf(r),
    ensures
        keys_unique(d.app_params@),
        keys_unique(d.device_mapping@),
{
    lemma_pairs_keys_unique(d.app_params@, r.app_params@, env, true);
    lemma_pairs_keys_unique(d.device_mapping@, r.device_mapping@, env, false);
}

} // verus!
