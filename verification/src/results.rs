//! The results bundle: per-test-type maps of raw latency data, success and
//! failure sets, and completion timestamps, written out after every test
//! type. Maps are ordered association lists with unique keys — insertion
//! order is kept, as the legacy output format expects.

use vstd::prelude::*;

use crate::docker::docker_config::DockerConfig;
use crate::docker::listener::benchmarker::BenchmarkResults;
use crate::error::{ToolsetError, ToolsetResult};
use crate::text::{dec_digits, lower_of, tok_u32, u64_to_dec};

verus! {

/// One measured run, reduced to what the results file keeps.
#[derive(Clone, Debug)]
pub struct BenchmarkData {
    pub latency_avg: String,
    pub latency_max: String,
    pub latency_stdev: String,
    pub total_requests: u32,
    pub start_time: u64,
    pub end_time: u64,
}

impl DeepView for BenchmarkData {
    type V = (Seq<char>, Seq<char>, Seq<char>, u32, u64, u64);

    open spec fn deep_view(&self) -> Self::V {
        (
            self.latency_avg@,
            self.latency_max@,
            self.latency_stdev@,
            self.total_requests,
            self.start_time,
            self.end_time,
        )
    }
}

/// What one measured run contributes to the bundle.
pub open spec fn bd_of(r: BenchmarkResults) -> (Seq<char>, Seq<char>, Seq<char>, u32, u64, u64) {
    (
        r.thread_stats.latency.average@,
        r.thread_stats.latency.max@,
        r.thread_stats.latency.standard_deviation@,
        r.total_requests,
        r.start_time,
        r.end_time,
    )
}

#[derive(Clone, Debug)]
pub struct Git {
    pub commit_id: String,
    pub repository_url: String,
    pub branch_name: String,
}

#[derive(Clone, Debug)]
pub struct MetaData {
    pub versus: String,
    pub project_name: String,
    pub display_name: String,
    pub name: String,
    pub classification: String,
    pub database: String,
    pub language: String,
    pub os: String,
    pub notes: String,
    pub tags: Vec<String>,
    pub framework: String,
    pub webserver: String,
    pub orm: String,
    pub platform: String,
    pub database_os: String,
    pub approach: String,
}

/// Appends `v` under `key`, creating the entry at the end when the key is
/// new: insertion order of keys is kept, keys stay unique.
pub open spec fn assoc_push<V>(
    m: Seq<(Seq<char>, Seq<V>)>,
    key: Seq<char>,
    v: V,
) -> Seq<(Seq<char>, Seq<V>)>
    decreases m.len(),
{
    if m.len() == 0 {
        seq![(key, seq![v])]
    } else if m[0].0 == key {
        seq![(m[0].0, m[0].1.push(v))] + m.drop_first()
    } else {
        seq![m[0]] + assoc_push(m.drop_first(), key, v)
    }
}

proof fn lemma_assoc_push_at<V>(m: Seq<(Seq<char>, Seq<V>)>, key: Seq<char>, v: V, i: int)
    requires
        0 <= i < m.len(),
        m[i].0 == key,
        forall|j: int| 0 <= j < i ==> (#[trigger] m[j]).0 != key,
    ensures
        assoc_push(m, key, v) =~= m.update(i, (m[i].0, m[i].1.push(v))),
    decreases i,
{
    if i == 0 {
    } else {
        assert(forall|j: int|
            0 <= j < i - 1 ==> (#[trigger] m.drop_first()[j]).0 == m[j + 1].0);
        lemma_assoc_push_at(m.drop_first(), key, v, i - 1);
        assert(m.drop_first().update(i - 1, (m[i].0, m[i].1.push(v))) =~= m.update(
            i,
            (m[i].0, m[i].1.push(v)),
        ).drop_first());
    }
}

proof fn lemma_assoc_push_missing<V>(m: Seq<(Seq<char>, Seq<V>)>, key: Seq<char>, v: V)
    requires
        forall|j: int| 0 <= j < m.len() ==> (#[trigger] m[j]).0 != key,
    ensures
        assoc_push(m, key, v) =~= m.push((key, seq![v])),
    decreases m.len(),
{
    if m.len() > 0 {
        assert(forall|j: int|
            0 <= j < m.len() - 1 ==> (#[trigger] m.drop_first()[j]).0 == m[j + 1].0);
        lemma_assoc_push_missing(m.drop_first(), key, v);
        assert(m.drop_first().push((key, seq![v])) =~= m.push((key, seq![v])).drop_first());
    }
}

/// Appends `v` under `key` in an ordered association list of vectors.
pub fn push_under_key<V>(m: &mut Vec<(String, Vec<V>)>, key: &str, v: V) where V: DeepView
    ensures
        final(m).deep_view() == assoc_push(old(m).deep_view(), key@, v.deep_view()),
{
    let ghost mv = old(m).deep_view();
    let mut i: usize = 0;
    while i < m.len()
        invariant
            m@ == old(m)@,
            mv == old(m).deep_view(),
            0 <= i <= m@.len(),
            forall|j: int| 0 <= j < i ==> (#[trigger] mv[j]).0 != key@,
        decreases m@.len() - i,
    {
        proof {
            assert(mv[i as int] == (m@[i as int].0@, m@[i as int].1.deep_view()));
        }
        if crate::text::str_eq(m[i].0.as_str(), key) {
            let ghost gi = i as int;
            m[i].1.push(v);
            proof {
                lemma_assoc_push_at(mv, key@, v.deep_view(), gi);
                assert(final(m).deep_view() =~~= mv.update(
                    gi,
                    (mv[gi].0, mv[gi].1.push(v.deep_view())),
                ));
            }
            return ;
        }
        i = i + 1;
    }
    let mut entry: Vec<V> = Vec::new();
    entry.push(v);
    m.push((String::from_str(key), entry));
    proof {
        lemma_assoc_push_missing(mv, key@, v.deep_view());
        assert(final(m).deep_view() =~~= mv.push((key@, seq![v.deep_view()])));
    }
}

/// Sets `key` to `v`, replacing an existing entry in place or appending a
/// new one at the end.
pub open spec fn assoc_set(
    m: Seq<(Seq<char>, Seq<char>)>,
    key: Seq<char>,
    v: Seq<char>,
) -> Seq<(Seq<char>, Seq<char>)>
    decreases m.len(),
{
    if m.len() == 0 {
        seq![(key, v)]
    } else if m[0].0 == key {
        seq![(key, v)] + m.drop_first()
    } else {
        seq![m[0]] + assoc_set(m.drop_first(), key, v)
    }
}

proof fn lemma_assoc_set_at(m: Seq<(Seq<char>, Seq<char>)>, key: Seq<char>, v: Seq<char>, i: int)
    requires
        0 <= i < m.len(),
        m[i].0 == key,
        forall|j: int| 0 <= j < i ==> (#[trigger] m[j]).0 != key,
    ensures
        assoc_set(m, key, v) =~= m.update(i, (key, v)),
    decreases i,
{
    if i == 0 {
    } else {
        assert(forall|j: int|
            0 <= j < i - 1 ==> (#[trigger] m.drop_first()[j]).0 == m[j + 1].0);
        lemma_assoc_set_at(m.drop_first(), key, v, i - 1);
        assert(m.drop_first().update(i - 1, (key, v)) =~= m.update(i, (key, v)).drop_first());
    }
}

proof fn lemma_assoc_set_missing(m: Seq<(Seq<char>, Seq<char>)>, key: Seq<char>, v: Seq<char>)
    requires
        forall|j: int| 0 <= j < m.len() ==> (#[trigger] m[j]).0 != key,
    ensures
        assoc_set(m, key, v) =~= m.push((key, v)),
    decreases m.len(),
{
    if m.len() > 0 {
        assert(forall|j: int|
            0 <= j < m.len() - 1 ==> (#[trigger] m.drop_first()[j]).0 == m[j + 1].0);
        lemma_assoc_set_missing(m.drop_first(), key, v);
        assert(m.drop_first().push((key, v)) =~= m.push((key, v)).drop_first());
    }
}

/// Sets `key` to `v` in an ordered association list of strings.
pub fn set_under_key(m: &mut Vec<(String, String)>, key: &str, v: String)
    ensures
        final(m).deep_view() == assoc_set(old(m).deep_view(), key@, v@),
{
    let ghost mv = old(m).deep_view();
    let mut i: usize = 0;
    while i < m.len()
        invariant
            m@ == old(m)@,
            mv == old(m).deep_view(),
            0 <= i <= m@.len(),
            forall|j: int| 0 <= j < i ==> (#[trigger] mv[j]).0 != key@,
        decreases m@.len() - i,
    {
        proof {
            assert(mv[i as int] == (m@[i as int].0@, m@[i as int].1@));
        }
        if crate::text::str_eq(m[i].0.as_str(), key) {
            let ghost gi = i as int;
            m[i].1 = v;
            proof {
                lemma_assoc_set_at(mv, key@, v@, gi);
                assert(final(m).deep_view() =~~= mv.update(gi, (key@, v@)));
            }
            return ;
        }
        i = i + 1;
    }
    m.push((String::from_str(key), v));
    proof {
        lemma_assoc_set_missing(mv, key@, v@);
        assert(final(m).deep_view() =~~= mv.push((key@, v@)));
    }
}

/// Appends `v` under the nested keys `k1.k2`, creating entries at the end
/// where missing.
pub open spec fn assoc_push2<V>(
    m: Seq<(Seq<char>, Seq<(Seq<char>, Seq<V>)>)>,
    k1: Seq<char>,
    k2: Seq<char>,
    v: V,
) -> Seq<(Seq<char>, Seq<(Seq<char>, Seq<V>)>)>
    decreases m.len(),
{
    if m.len() == 0 {
        seq![(k1, assoc_push(Seq::empty(), k2, v))]
    } else if m[0].0 == k1 {
        seq![(m[0].0, assoc_push(m[0].1, k2, v))] + m.drop_first()
    } else {
        seq![m[0]] + assoc_push2(m.drop_first(), k1, k2, v)
    }
}

proof fn lemma_assoc_push2_at<V>(
    m: Seq<(Seq<char>, Seq<(Seq<char>, Seq<V>)>)>,
    k1: Seq<char>,
    k2: Seq<char>,
    v: V,
    i: int,
)
    requires
        0 <= i < m.len(),
        m[i].0 == k1,
        forall|j: int| 0 <= j < i ==> (#[trigger] m[j]).0 != k1,
    ensures
        assoc_push2(m, k1, k2, v) =~= m.update(i, (m[i].0, assoc_push(m[i].1, k2, v))),
    decreases i,
{
    if i == 0 {
    } else {
        assert(forall|j: int|
            0 <= j < i - 1 ==> (#[trigger] m.drop_first()[j]).0 == m[j + 1].0);
        lemma_assoc_push2_at(m.drop_first(), k1, k2, v, i - 1);
        assert(m.drop_first().update(i - 1, (m[i].0, assoc_push(m[i].1, k2, v))) =~= m.update(
            i,
            (m[i].0, assoc_push(m[i].1, k2, v)),
        ).drop_first());
    }
}

proof fn lemma_assoc_push2_missing<V>(
    m: Seq<(Seq<char>, Seq<(Seq<char>, Seq<V>)>)>,
    k1: Seq<char>,
    k2: Seq<char>,
    v: V,
)
    requires
        forall|j: int| 0 <= j < m.len() ==> (#[trigger] m[j]).0 != k1,
    ensures
        assoc_push2(m, k1, k2, v) =~= m.push((k1, assoc_push(Seq::empty(), k2, v))),
    decreases m.len(),
{
    if m.len() > 0 {
        assert(forall|j: int|
            0 <= j < m.len() - 1 ==> (#[trigger] m.drop_first()[j]).0 == m[j + 1].0);
        lemma_assoc_push2_missing(m.drop_first(), k1, k2, v);
        assert(m.drop_first().push((k1, assoc_push(Seq::<(Seq<char>, Seq<V>)>::empty(), k2, v)))
            =~= m.push((k1, assoc_push(Seq::<(Seq<char>, Seq<V>)>::empty(), k2, v))).drop_first());
    }
}

/// Appends `v` under the nested keys `k1.k2` of a two-level ordered map.
pub fn push_under_keys2<V>(
    m: &mut Vec<(String, Vec<(String, Vec<V>)>)>,
    k1: &str,
    k2: &str,
    v: V,
) where V: DeepView
    ensures
        final(m).deep_view() == assoc_push2(old(m).deep_view(), k1@, k2@, v.deep_view()),
{
    let ghost mv = old(m).deep_view();
    let mut i: usize = 0;
    while i < m.len()
        invariant
            m@ == old(m)@,
            mv == old(m).deep_view(),
            0 <= i <= m@.len(),
            forall|j: int| 0 <= j < i ==> (#[trigger] mv[j]).0 != k1@,
        decreases m@.len() - i,
    {
        proof {
            assert(mv[i as int] == (m@[i as int].0@, m@[i as int].1.deep_view()));
        }
        if crate::text::str_eq(m[i].0.as_str(), k1) {
            let ghost gi = i as int;
            push_under_key(&mut m[i].1, k2, v);
            proof {
                lemma_assoc_push2_at(mv, k1@, k2@, v.deep_view(), gi);
                assert(final(m).deep_view() =~~= mv.update(
                    gi,
                    (mv[gi].0, assoc_push(mv[gi].1, k2@, v.deep_view())),
                ));
            }
            return ;
        }
        i = i + 1;
    }
    let mut inner: Vec<(String, Vec<V>)> = Vec::new();
    push_under_key(&mut inner, k2, v);
    m.push((String::from_str(k1), inner));
    proof {
        lemma_assoc_push2_missing(mv, k1@, k2@, v.deep_view());
        assert(final(m).deep_view() =~~= mv.push(
            (k1@, assoc_push(Seq::<(Seq<char>, Seq<V::V>)>::empty(), k2@, v.deep_view())),
        ));
    }
}

/// Comma split, accumulator form: always at least one piece; empty pieces
/// are kept, and rejected by the number parse.
pub open spec fn comma_acc(s: Seq<char>, cur: Seq<char>) -> Seq<Seq<char>>
    decreases s.len(),
{
    if s.len() == 0 {
        seq![cur]
    } else if s[0] == ',' {
        seq![cur] + comma_acc(s.drop_first(), Seq::empty())
    } else {
        comma_acc(s.drop_first(), cur.push(s[0]))
    }
}

/// The numbers of the comma-separated pieces, all or nothing.
pub open spec fn levels_of(pieces: Seq<Seq<char>>) -> Option<Seq<u32>>
    decreases pieces.len(),
{
    if pieces.len() == 0 {
        Some(Seq::empty())
    } else {
        match (levels_of(pieces.drop_last()), tok_u32(pieces.last())) {
            (Some(vs), Some(v)) => Some(vs.push(v)),
            _ => None,
        }
    }
}

/// A comma-separated list of numbers, e.g. a concurrency-levels argument,
/// as numbers: `Some` exactly when every piece is one.
pub open spec fn spec_levels(s: Seq<char>) -> Option<Seq<u32>> {
    levels_of(comma_acc(s, Seq::empty()))
}

proof fn lemma_levels_prefix_none(pieces: Seq<Seq<char>>, j: int)
    requires
        0 <= j <= pieces.len(),
        levels_of(pieces.take(j)) is None,
    ensures
        levels_of(pieces) is None,
    decreases pieces.len() - j,
{
    if j < pieces.len() {
        assert(pieces.take(j + 1).drop_last() =~= pieces.take(j));
        lemma_levels_prefix_none(pieces, j + 1);
    } else {
        assert(pieces.take(j) =~= pieces);
    }
}

/// Parses a comma-separated list of numbers; `None` when any piece is not
/// one.
pub fn parse_levels(s: &str) -> (r: Option<Vec<u32>>)
    ensures
        match r {
            Some(v) => spec_levels(s@) == Some(v@),
            None => spec_levels(s@) is None,
        },
{
    let pieces = split_commas(s);
    let ghost pv = pieces.deep_view();
    let mut out: Vec<u32> = Vec::new();
    let mut i: usize = 0;
    proof {
        assert(pv.take(0) =~= Seq::<Seq<char>>::empty());
    }
    while i < pieces.len()
        invariant
            pv == pieces.deep_view(),
            pv == comma_acc(s@, Seq::<char>::empty()),
            pieces@.len() == pv.len(),
            0 <= i <= pieces.len(),
            levels_of(pv.take(i as int)) == Some(out@),
        decreases pieces.len() - i,
    {
        proof {
            assert(pv[i as int] == pieces@[i as int]@);
            assert(pv.take(i as int + 1).drop_last() =~= pv.take(i as int));
            assert(pv.take(i as int + 1).last() == pv[i as int]);
        }
        match crate::text::parse_u32_digits(pieces[i].as_str()) {
            Some(v) => {
                out.push(v);
            },
            None => {
                proof {
                    assert(tok_u32(pv[i as int]) is None);
                    assert(levels_of(pv.take(i as int + 1)) is None);
                    lemma_levels_prefix_none(pv, i as int + 1);
                }
                return None;
            },
        }
        i = i + 1;
    }
    proof {
        assert(pv.take(pv.len() as int) =~= pv);
    }
    Some(out)
}

/// Splits on commas, keeping empty pieces.
fn split_commas(s: &str) -> (r: Vec<String>)
    ensures
        r.deep_view() == comma_acc(s@, Seq::<char>::empty()),
{
    let len = s.unicode_len();
    let mut done: Vec<String> = Vec::new();
    let mut start: usize = 0;
    let mut i: usize = 0;
    proof {
        assert(s@.skip(0) =~= s@);
        assert(s@.subrange(0, 0) =~= Seq::<char>::empty());
    }
    while i < len
        invariant
            len == s@.len(),
            0 <= start <= i <= len,
            comma_acc(s@, Seq::<char>::empty()) == done.deep_view() + comma_acc(
                s@.skip(i as int),
                s@.subrange(start as int, i as int),
            ),
        decreases len - i,
    {
        let c = s.get_char(i);
        proof {
            assert(s@.skip(i as int)[0] == s@[i as int]);
            assert(s@.skip(i as int).drop_first() =~= s@.skip(i as int + 1));
        }
        if c == ',' {
            let piece = s.substring_char(start, i);
            proof {
                assert(piece@ =~= s@.subrange(start as int, i as int));
            }
            let ghost old_done = done.deep_view();
            done.push(String::from_str(piece));
            proof {
                assert(done.deep_view() =~= old_done.push(s@.subrange(
                    start as int,
                    i as int,
                )));
                assert(old_done.push(s@.subrange(start as int, i as int)) =~= old_done
                    + seq![s@.subrange(start as int, i as int)]);
            }
            i = i + 1;
            start = i;
            proof {
                assert(s@.subrange(start as int, start as int) =~= Seq::<char>::empty());
            }
        } else {
            proof {
                assert(s@.subrange(start as int, i as int).push(s@[i as int])
                    =~= s@.subrange(start as int, i as int + 1));
            }
            i = i + 1;
        }
    }
    proof {
        assert(s@.skip(len as int) =~= Seq::<char>::empty());
    }
    let piece = s.substring_char(start, len);
    proof {
        assert(piece@ =~= s@.subrange(start as int, len as int));
    }
    let ghost old_done = done.deep_view();
    done.push(String::from_str(piece));
    proof {
        assert(done.deep_view() =~= old_done.push(s@.subrange(start as int, len as int)));
        assert(old_done.push(s@.subrange(start as int, len as int)) =~= old_done
            + seq![s@.subrange(start as int, len as int)]);
    }
    done
}

/// The results bundle of one run.
#[derive(Clone, Debug)]
pub struct Results {
    pub uuid: String,
    pub name: String,
    pub start_time: u64,
    pub completion_time: u64,
    pub duration: u32,
    pub test_metadata: Vec<MetaData>,
    pub environment_description: String,
    pub git: Git,
    pub query_intervals: Vec<u32>,
    pub cached_query_intervals: Vec<u32>,
    pub concurrency_levels: Vec<u32>,
    pub pipeline_concurrency_levels: Vec<u32>,
    pub frameworks: Vec<String>,
    pub raw_data: Vec<(String, Vec<(String, Vec<BenchmarkData>)>)>,
    pub verify: Vec<(String, Vec<(String, String)>)>,
    pub succeeded: Vec<(String, Vec<String>)>,
    pub failed: Vec<(String, Vec<String>)>,
    pub completed: Vec<(String, String)>,
}

impl Results {
    /// A fresh bundle for one run: the benchmark parameter lists are parsed
    /// from the configuration; a malformed list is a configuration error.
    /// The identity of the run — uuid, clock, repository state, metadata
    /// gathered from the framework tree — arrives from the caller.
    pub fn new(
        docker_config: &DockerConfig,
        test_metadata: Vec<MetaData>,
        uuid: String,
        start_time: u64,
        git: Git,
    ) -> (r: ToolsetResult<Results>)
        ensures
            match r {
                Ok(res) => {
                    &&& Some(res.concurrency_levels@) == spec_levels(
                        docker_config.concurrency_levels@,
                    )
                    &&& Some(res.pipeline_concurrency_levels@) == spec_levels(
                        docker_config.pipeline_concurrency_levels@,
                    )
                    &&& Some(res.query_intervals@) == spec_levels(docker_config.query_levels@)
                    &&& Some(res.cached_query_intervals@) == spec_levels(
                        docker_config.cached_query_levels@,
                    )
                    &&& res.uuid == uuid
                    &&& res.name == docker_config.results_name
                    &&& res.start_time == start_time
                    &&& res.completion_time == 0
                    &&& res.duration == docker_config.duration
                    &&& res.test_metadata == test_metadata
                    &&& res.environment_description == docker_config.results_environment
                    &&& res.git == git
                    &&& res.frameworks@.len() == 0
                    &&& res.raw_data@.len() == 0
                    &&& res.verify@.len() == 0
                    &&& res.succeeded@.len() == 0
                    &&& res.failed@.len() == 0
                    &&& res.completed@.len() == 0
                },
                Err(e) => (e matches ToolsetError::InvalidConfigError(_, _)) && (spec_levels(
                    docker_config.concurrency_levels@,
                ) is None || spec_levels(docker_config.pipeline_concurrency_levels@) is None
                    || spec_levels(docker_config.query_levels@) is None || spec_levels(
                    docker_config.cached_query_levels@,
                ) is None),
            },
    {
        let concurrency_levels = parse_levels(docker_config.concurrency_levels.as_str());
        let pipeline_concurrency_levels = parse_levels(
            docker_config.pipeline_concurrency_levels.as_str(),
        );
        let query_intervals = parse_levels(docker_config.query_levels.as_str());
        let cached_query_intervals = parse_levels(docker_config.cached_query_levels.as_str());
        match (concurrency_levels, pipeline_concurrency_levels, query_intervals,
        cached_query_intervals) {
            (Some(cl), Some(pcl), Some(qi), Some(cqi)) => Ok(
                Results {
                    uuid,
                    name: docker_config.results_name.clone(),
                    start_time,
                    completion_time: 0,
                    duration: docker_config.duration,
                    test_metadata,
                    environment_description: docker_config.results_environment.clone(),
                    git,
                    query_intervals: qi,
                    cached_query_intervals: cqi,
                    concurrency_levels: cl,
                    pipeline_concurrency_levels: pcl,
                    frameworks: Vec::new(),
                    raw_data: Vec::new(),
                    verify: Vec::new(),
                    succeeded: Vec::new(),
                    failed: Vec::new(),
                    completed: Vec::new(),
                },
            ),
            _ => Err(
                ToolsetError::InvalidConfigError(
                    String::from_str("benchmark parameter lists"),
                    String::from_str("every level must be a comma-separated list of numbers"),
                ),
            ),
        }
    }
}

/// The raw-data map after recording each of `rs` in order under
/// `test_type.framework`.
pub open spec fn raw_after(
    m: Seq<(Seq<char>, Seq<(Seq<char>, Seq<(Seq<char>, Seq<char>, Seq<char>, u32, u64, u64)>)>)>,
    test_type: Seq<char>,
    framework: Seq<char>,
    rs: Seq<(Seq<char>, Seq<char>, Seq<char>, u32, u64, u64)>,
) -> Seq<(Seq<char>, Seq<(Seq<char>, Seq<(Seq<char>, Seq<char>, Seq<char>, u32, u64, u64)>)>)>
    decreases rs.len(),
{
    if rs.len() == 0 {
        m
    } else {
        assoc_push2(raw_after(m, test_type, framework, rs.drop_last()), test_type, framework, rs.last())
    }
}

impl Results {
    /// Records a successful benchmark of one `framework` / `test_type`: the
    /// reduced rows are appended under `test_type.framework` of the raw
    /// data, in order; the framework joins the test type's succeeded set;
    /// and its completion stamp is set to `completed_at` (milliseconds,
    /// rendered in decimal). Framework keys are lowercased.
    pub fn report_benchmark_success(
        &mut self,
        results: &Vec<BenchmarkResults>,
        framework_name: &str,
        test_type: &str,
        completed_at: u64,
    )
        ensures
            final(self).raw_data.deep_view() == raw_after(
                old(self).raw_data.deep_view(),
                test_type@,
                lower_of(framework_name@),
                results@.map_values(|r: BenchmarkResults| bd_of(r)),
            ),
            final(self).succeeded.deep_view() == assoc_push(
                old(self).succeeded.deep_view(),
                test_type@,
                lower_of(framework_name@),
            ),
            final(self).completed.deep_view() == assoc_set(
                old(self).completed.deep_view(),
                lower_of(framework_name@),
                dec_digits(completed_at as nat),
            ),
            final(self).failed == old(self).failed,
            final(self).verify == old(self).verify,
            final(self).uuid == old(self).uuid,
            final(self).name == old(self).name,
            final(self).start_time == old(self).start_time,
            final(self).completion_time == old(self).completion_time,
            final(self).duration == old(self).duration,
            final(self).test_metadata == old(self).test_metadata,
            final(self).environment_description == old(self).environment_description,
            final(self).git == old(self).git,
            final(self).query_intervals == old(self).query_intervals,
            final(self).cached_query_intervals == old(self).cached_query_intervals,
            final(self).concurrency_levels == old(self).concurrency_levels,
            final(self).pipeline_concurrency_levels == old(self).pipeline_concurrency_levels,
            final(self).frameworks == old(self).frameworks,
    {
        let fw = crate::text::lowercase(framework_name);
        let ghost rv = results@.map_values(|r: BenchmarkResults| bd_of(r));
        let mut i: usize = 0;
        proof {
            assert(rv.take(0) =~= Seq::<(Seq<char>, Seq<char>, Seq<char>, u32, u64, u64)>::empty());
        }
        while i < results.len()
            invariant
                rv == results@.map_values(|r: BenchmarkResults| bd_of(r)),
                results@.len() == rv.len(),
                0 <= i <= results.len(),
                fw@ == lower_of(framework_name@),
                self.raw_data.deep_view() == raw_after(
                    old(self).raw_data.deep_view(),
                    test_type@,
                    fw@,
                    rv.take(i as int),
                ),
                self.succeeded == old(self).succeeded,
                self.completed == old(self).completed,
                self.failed == old(self).failed,
                self.verify == old(self).verify,
                self.uuid == old(self).uuid,
                self.name == old(self).name,
                self.start_time == old(self).start_time,
                self.completion_time == old(self).completion_time,
                self.duration == old(self).duration,
                self.test_metadata == old(self).test_metadata,
                self.environment_description == old(self).environment_description,
                self.git == old(self).git,
                self.query_intervals == old(self).query_intervals,
                self.cached_query_intervals == old(self).cached_query_intervals,
                self.concurrency_levels == old(self).concurrency_levels,
                self.pipeline_concurrency_levels == old(self).pipeline_concurrency_levels,
                self.frameworks == old(self).frameworks,
            decreases results.len() - i,
        {
            proof {
                assert(rv[i as int] == bd_of(results@[i as int]));
                assert(rv.take(i as int + 1).drop_last() =~= rv.take(i as int));
                assert(rv.take(i as int + 1).last() == rv[i as int]);
            }
            let row = BenchmarkData {
                latency_avg: results[i].thread_stats.latency.average.clone(),
                latency_max: results[i].thread_stats.latency.max.clone(),
                latency_stdev: results[i].thread_stats.latency.standard_deviation.clone(),
                total_requests: results[i].total_requests,
                start_time: results[i].start_time,
                end_time: results[i].end_time,
            };
            push_under_keys2(&mut self.raw_data, test_type, fw.as_str(), row);
            i = i + 1;
        }
        proof {
            assert(rv.take(rv.len() as int) =~= rv);
        }
        push_under_key(&mut self.succeeded, test_type, fw.clone());
        let stamp = u64_to_dec(completed_at);
        set_under_key(&mut self.completed, fw.as_str(), stamp);
    }

    /// Records an unsuccessful benchmark: the test joins the test type's
    /// failed set, under its own (uncased) name.
    pub fn report_benchmark_error(&mut self, test_name: &str, test_type: &str)
        ensures
            final(self).failed.deep_view() == assoc_push(
                old(self).failed.deep_view(),
                test_type@,
                test_name@,
            ),
            final(self).raw_data == old(self).raw_data,
            final(self).succeeded == old(self).succeeded,
            final(self).completed == old(self).completed,
            final(self).verify == old(self).verify,
    {
        push_under_key(&mut self.failed, test_type, String::from_str(test_name));
    }
}

} // verus!
