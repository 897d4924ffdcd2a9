//! The routing graph builder: validates the declarative configuration
//! and turns it into the exact sequence of media-backend operations that
//! realizes the fan-out topology — one processing chain and one fan-out
//! junction per source, one queued consuming chain per sink, and one
//! junction branch per region.  The backend itself is an external
//! collaborator: it executes the planned operations and reports each
//! outcome back through [`BuildProgress`], which on a failure hands back
//! the full teardown list so no partial graph leaks.

use vstd::prelude::*;
use vstd::string::StringExecFns;
use crate::digits::dec_digits;
use crate::digits::u32_to_dec;
use crate::runtime_config::RegionConfig;
use crate::runtime_config::RuntimeConfig;
use crate::runtime_config::region_sink;
use crate::runtime_config::region_source;
use crate::source::SourceConfig;
use crate::source::SourceType;
use crate::source::URI;

verus! {

/// A fatal defect of the declarative configuration, detected before any
/// backend operation is planned or made.
#[derive(Clone, Copy, PartialEq, Eq, Debug, Structural)]
pub enum ConfigError {
    /// Two sources share this id.
    DuplicateSourceId { id: u32 },
    /// Two sinks share this id.
    DuplicateSinkId { id: u32 },
    /// Two regions share this id.
    DuplicateRegionId { id: u32 },
    /// This region names a source id that no source declares.
    UnknownSourceRef { region_id: u32, source_id: u32 },
    /// This region names a sink id that no sink declares.
    UnknownSinkRef { region_id: u32, sink_id: u32 },
    /// This region feeds a sink that an earlier region already feeds:
    /// fan-in is not supported.
    SinkFedTwice { region_id: u32, sink_id: u32 },
}

/// One operation for the media backend, in plan order.
#[derive(Clone, PartialEq, Eq, Debug)]
pub enum BackendOp {
    /// Create the processing chain that acquires this source.
    CreateSourceChain { source_id: u32, kind: SourceType, name: String },
    /// Create the fan-out junction downstream of this source's chain.
    CreateFanout { source_id: u32, name: String },
    /// Link the source's chain to its fan-out junction.
    LinkSourceToFanout { source_id: u32 },
    /// Create the queue that decouples this sink's consuming chain.
    CreateQueue { sink_id: u32, name: String },
    /// Create this sink's consuming chain, ending in the frame-capture
    /// point that hands decoded frames to the presentation side.
    CreateSinkChain { sink_id: u32, name: String },
    /// Link the sink's queue to its consuming chain.
    LinkQueueToSinkChain { sink_id: u32 },
    /// Open one new branch on the source's junction and link it to the
    /// sink's queue: one branch per region.
    LinkFanoutToQueue { region_id: u32, source_id: u32, sink_id: u32 },
}

/// The planned fan-out topology of a valid configuration.
#[derive(Debug)]
pub struct Graph {
    /// Every backend operation, in the order it must run.
    pub ops: Vec<BackendOp>,
    /// The source ids, in declaration order.
    pub source_ids: Vec<u32>,
    /// The sink ids, in declaration order.
    pub sink_ids: Vec<u32>,
    /// One `(source_id, sink_id)` edge per region, in declaration order.
    pub edges: Vec<(u32, u32)>,
}

/// No value occurs twice.
pub open spec fn distinct_u32(s: Seq<u32>) -> bool {
    forall|i: int, j: int| 0 <= i < j < s.len() ==> s[i] != s[j]
}

/// The declared source ids, in order.
pub open spec fn spec_source_ids(c: RuntimeConfig) -> Seq<u32> {
    c.sources@.map_values(|s: SourceConfig| s.id)
}

/// The declared sink ids, in order.
pub open spec fn spec_sink_ids(c: RuntimeConfig) -> Seq<u32> {
    c.sinks@.map_values(|s: crate::sink::SinkConfig| s.id)
}

/// The declared region ids, in order.
pub open spec fn spec_region_ids(c: RuntimeConfig) -> Seq<u32> {
    c.regions@.map_values(|r: RegionConfig| r.id)
}

/// The sink each region feeds, in order.
pub open spec fn spec_region_sinks(c: RuntimeConfig) -> Seq<u32> {
    c.regions@.map_values(|r: RegionConfig| region_sink(r))
}

/// The configuration is sound: ids are unique, every region's edge
/// resolves to a declared source and sink, and no sink is fed by more
/// than one region.
pub open spec fn config_valid(c: RuntimeConfig) -> bool {
    &&& distinct_u32(spec_source_ids(c))
    &&& distinct_u32(spec_sink_ids(c))
    &&& distinct_u32(spec_region_ids(c))
    &&& forall|k: int|
        0 <= k < c.regions@.len() ==> spec_source_ids(c).contains(
            region_source(#[trigger] c.regions@[k]),
        )
    &&& forall|k: int|
        0 <= k < c.regions@.len() ==> spec_sink_ids(c).contains(
            region_sink(#[trigger] c.regions@[k]),
        )
    &&& distinct_u32(spec_region_sinks(c))
}

/// The error names a real defect of this configuration.
pub open spec fn config_error_witnessed(c: RuntimeConfig, e: ConfigError) -> bool {
    match e {
        ConfigError::DuplicateSourceId { id } => exists|i: int, j: int|
            0 <= i < j < c.sources@.len() && (#[trigger] spec_source_ids(c)[i]) == id && (
            #[trigger] spec_source_ids(c)[j]) == id,
        ConfigError::DuplicateSinkId { id } => exists|i: int, j: int|
            0 <= i < j < c.sinks@.len() && (#[trigger] spec_sink_ids(c)[i]) == id && (
            #[trigger] spec_sink_ids(c)[j]) == id,
        ConfigError::DuplicateRegionId { id } => exists|i: int, j: int|
            0 <= i < j < c.regions@.len() && (#[trigger] spec_region_ids(c)[i]) == id && (
            #[trigger] spec_region_ids(c)[j]) == id,
        ConfigError::UnknownSourceRef { region_id, source_id } => exists|k: int|
            {
                &&& 0 <= k < c.regions@.len()
                &&& (#[trigger] c.regions@[k]).id == region_id
                &&& region_source(c.regions@[k]) == source_id
                &&& !spec_source_ids(c).contains(source_id)
            },
        ConfigError::UnknownSinkRef { region_id, sink_id } => exists|k: int|
            {
                &&& 0 <= k < c.regions@.len()
                &&& (#[trigger] c.regions@[k]).id == region_id
                &&& region_sink(c.regions@[k]) == sink_id
                &&& !spec_sink_ids(c).contains(sink_id)
            },
        ConfigError::SinkFedTwice { region_id, sink_id } => exists|i: int, j: int|
            {
                &&& 0 <= i < j < c.regions@.len()
                &&& region_sink(#[trigger] c.regions@[i]) == sink_id
                &&& region_sink(#[trigger] c.regions@[j]) == sink_id
                &&& c.regions@[j].id == region_id
            },
    }
}

/// The backend name of a source's processing chain: `test-` or `uri-`
/// followed by the source id.
pub open spec fn spec_source_chain_name(s: SourceConfig) -> Seq<char> {
    match s.source {
        SourceType::Test(t) => "test-"@ + dec_digits(s.id as nat),
        SourceType::URI(u) => "uri-"@ + dec_digits(s.id as nat),
    }
}

/// The backend name of a source's fan-out junction.
pub open spec fn spec_fanout_name(s: SourceConfig) -> Seq<char> {
    "tee-"@ + spec_source_chain_name(s)
}

/// The backend name of a sink's consuming chain.
pub open spec fn spec_sink_chain_name(s: crate::sink::SinkConfig) -> Seq<char> {
    "opengl-"@ + dec_digits(s.id as nat)
}

/// The backend name of a sink's queue.
pub open spec fn spec_queue_name(s: crate::sink::SinkConfig) -> Seq<char> {
    "queue-"@ + spec_sink_chain_name(s)
}

/// Two source kinds carry the same content.
pub open spec fn source_type_matches(a: SourceType, b: SourceType) -> bool {
    match (a, b) {
        (SourceType::Test(x), SourceType::Test(y)) => true,
        (SourceType::URI(x), SourceType::URI(y)) => x.uri@ == y.uri@,
        _ => false,
    }
}

/// The three operations that realize one source, at `at` in the plan.
pub open spec fn source_ops_at(s: SourceConfig, ops: Seq<BackendOp>, at: int) -> bool {
    &&& 0 <= at && at + 3 <= ops.len()
    &&& ops[at] matches BackendOp::CreateSourceChain { source_id, kind, name } && source_id == s.id
        && source_type_matches(kind, s.source) && name@ == spec_source_chain_name(s)
    &&& ops[at + 1] matches BackendOp::CreateFanout { source_id, name } && source_id == s.id
        && name@ == spec_fanout_name(s)
    &&& ops[at + 2] matches BackendOp::LinkSourceToFanout { source_id } && source_id == s.id
}

/// The three operations that realize one sink, at `at` in the plan.
pub open spec fn sink_ops_at(s: crate::sink::SinkConfig, ops: Seq<BackendOp>, at: int) -> bool {
    &&& 0 <= at && at + 3 <= ops.len()
    &&& ops[at] matches BackendOp::CreateQueue { sink_id, name } && sink_id == s.id && name@
        == spec_queue_name(s)
    &&& ops[at + 1] matches BackendOp::CreateSinkChain { sink_id, name } && sink_id == s.id
        && name@ == spec_sink_chain_name(s)
    &&& ops[at + 2] matches BackendOp::LinkQueueToSinkChain { sink_id } && sink_id == s.id
}

/// The one operation that realizes one region, at `at` in the plan.
pub open spec fn region_op_at(r: RegionConfig, ops: Seq<BackendOp>, at: int) -> bool {
    &&& 0 <= at < ops.len()
    &&& ops[at] matches BackendOp::LinkFanoutToQueue { region_id, source_id, sink_id } && region_id
        == r.id && source_id == region_source(r) && sink_id == region_sink(r)
}

/// The plan lays its operations out in order: all sources, then all
/// sinks, then one branch link per region.
pub open spec fn ops_layout(c: RuntimeConfig, ops: Seq<BackendOp>) -> bool {
    let ns = c.sources@.len() as int;
    let nk = c.sinks@.len() as int;
    let nr = c.regions@.len() as int;
    &&& ops.len() == 3 * ns + 3 * nk + nr
    &&& forall|i: int| 0 <= i < ns ==> source_ops_at(#[trigger] c.sources@[i], ops, 3 * i)
    &&& forall|j: int| 0 <= j < nk ==> sink_ops_at(#[trigger] c.sinks@[j], ops, 3 * ns + 3 * j)
    &&& forall|m: int|
        0 <= m < nr ==> region_op_at(#[trigger] c.regions@[m], ops, 3 * ns + 3 * nk + m)
}

/// The graph realizes the configuration: ids and edges correspond one
/// to one and in order, and the plan is laid out as [`ops_layout`]
/// says.  Since the configuration is valid, every region has exactly
/// one branch and no sink has more than one upstream producer.
pub open spec fn graph_of_config(c: RuntimeConfig, g: Graph) -> bool {
    &&& config_valid(c)
    &&& g.source_ids@ == spec_source_ids(c)
    &&& g.sink_ids@ == spec_sink_ids(c)
    &&& g.edges@.len() == c.regions@.len()
    &&& forall|k: int|
        0 <= k < c.regions@.len() ==> (#[trigger] g.edges@[k]).0 == region_source(c.regions@[k])
            && g.edges@[k].1 == region_sink(c.regions@[k])
    &&& ops_layout(c, g.ops@)
}

/// The first pair of positions holding the same id, scanning in order.
fn find_duplicate_pair(ids: &Vec<u32>) -> (r: Option<(usize, usize)>)
    ensures
        match r {
            Some(p) => 0 <= p.0 < p.1 < ids@.len() && ids@[p.0 as int] == ids@[p.1 as int],
            None => distinct_u32(ids@),
        },
{
    let n = ids.len();
    let mut j: usize = 1;
    while j < n
        invariant
            1 <= j <= n || n == 0,
            n == ids@.len(),
            forall|a: int, b: int| 0 <= a < b < j ==> ids@[a] != ids@[b],
        decreases n - j,
    {
        let mut i: usize = 0;
        while i < j
            invariant
                0 <= i <= j < n,
                n == ids@.len(),
                forall|a: int| 0 <= a < i ==> ids@[a] != ids@[j as int],
            decreases j - i,
        {
            if ids[i] == ids[j] {
                return Some((i, j));
            }
            i = i + 1;
        }
        j = j + 1;
    }
    None
}

/// Whether `ids` holds `id`.
fn ids_contain(ids: &Vec<u32>, id: u32) -> (r: bool)
    ensures
        r == ids@.contains(id),
{
    let n = ids.len();
    let mut i: usize = 0;
    while i < n
        invariant
            0 <= i <= n,
            n == ids@.len(),
            forall|k: int| 0 <= k < i ==> ids@[k] != id,
        decreases n - i,
    {
        if ids[i] == id {
            return true;
        }
        i = i + 1;
    }
    false
}

/// The declared source ids, in order.
fn source_id_list(config: &RuntimeConfig) -> (r: Vec<u32>)
    ensures
        r@ == spec_source_ids(*config),
{
    let n = config.sources.len();
    let mut out: Vec<u32> = Vec::new();
    let mut i: usize = 0;
    while i < n
        invariant
            0 <= i <= n,
            n == config.sources@.len(),
            out@ =~= spec_source_ids(*config).subrange(0, i as int),
        decreases n - i,
    {
        out.push(config.sources[i].id);
        proof {
            assert(out@ =~= spec_source_ids(*config).subrange(0, i + 1));
        }
        i = i + 1;
    }
    proof {
        assert(spec_source_ids(*config).subrange(0, n as int) =~= spec_source_ids(*config));
    }
    out
}

/// The declared sink ids, in order.
fn sink_id_list(config: &RuntimeConfig) -> (r: Vec<u32>)
    ensures
        r@ == spec_sink_ids(*config),
{
    let n = config.sinks.len();
    let mut out: Vec<u32> = Vec::new();
    let mut i: usize = 0;
    while i < n
        invariant
            0 <= i <= n,
            n == config.sinks@.len(),
            out@ =~= spec_sink_ids(*config).subrange(0, i as int),
        decreases n - i,
    {
        out.push(config.sinks[i].id);
        proof {
            assert(out@ =~= spec_sink_ids(*config).subrange(0, i + 1));
        }
        i = i + 1;
    }
    proof {
        assert(spec_sink_ids(*config).subrange(0, n as int) =~= spec_sink_ids(*config));
    }
    out
}

/// The declared region ids, in order.
fn region_id_list(config: &RuntimeConfig) -> (r: Vec<u32>)
    ensures
        r@ == spec_region_ids(*config),
{
    let n = config.regions.len();
    let mut out: Vec<u32> = Vec::new();
    let mut i: usize = 0;
    while i < n
        invariant
            0 <= i <= n,
            n == config.regions@.len(),
            out@ =~= spec_region_ids(*config).subrange(0, i as int),
        decreases n - i,
    {
        out.push(config.regions[i].id);
        proof {
            assert(out@ =~= spec_region_ids(*config).subrange(0, i + 1));
        }
        i = i + 1;
    }
    proof {
        assert(spec_region_ids(*config).subrange(0, n as int) =~= spec_region_ids(*config));
    }
    out
}

/// The sink each region feeds, in order.
fn region_sink_list(config: &RuntimeConfig) -> (r: Vec<u32>)
    ensures
        r@ == spec_region_sinks(*config),
{
    let n = config.regions.len();
    let mut out: Vec<u32> = Vec::new();
    let mut i: usize = 0;
    while i < n
        invariant
            0 <= i <= n,
            n == config.regions@.len(),
            out@ =~= spec_region_sinks(*config).subrange(0, i as int),
        decreases n - i,
    {
        let sink = match config.regions[i].region {
            crate::runtime_config::RegionType::Display { source, sink } => sink,
        };
        out.push(sink);
        proof {
            assert(out@ =~= spec_region_sinks(*config).subrange(0, i + 1));
        }
        i = i + 1;
    }
    proof {
        assert(spec_region_sinks(*config).subrange(0, n as int) =~= spec_region_sinks(*config));
    }
    out
}

/// Checks the configuration's cross-reference invariant: unique ids,
/// every region edge resolving to a declared source and sink, and no
/// fan-in.  Succeeds exactly on valid configurations; every error
/// names a defect the configuration really has.
pub fn validate(config: &RuntimeConfig) -> (r: Result<(), ConfigError>)
    ensures
        r is Ok <==> config_valid(*config),
        r matches Err(e) ==> config_error_witnessed(*config, e),
{
    let source_ids = source_id_list(config);
    let sink_ids = sink_id_list(config);
    let region_ids = region_id_list(config);

    if let Some(p) = find_duplicate_pair(&source_ids) {
        return Err(ConfigError::DuplicateSourceId { id: source_ids[p.0] });
    }
    if let Some(p) = find_duplicate_pair(&sink_ids) {
        return Err(ConfigError::DuplicateSinkId { id: sink_ids[p.0] });
    }
    if let Some(p) = find_duplicate_pair(&region_ids) {
        return Err(ConfigError::DuplicateRegionId { id: region_ids[p.0] });
    }

    let n = config.regions.len();
    let mut k: usize = 0;
    while k < n
        invariant
            0 <= k <= n,
            n == config.regions@.len(),
            source_ids@ == spec_source_ids(*config),
            sink_ids@ == spec_sink_ids(*config),
            forall|a: int|
                0 <= a < k ==> spec_source_ids(*config).contains(
                    region_source(#[trigger] config.regions@[a]),
                ),
            forall|a: int|
                0 <= a < k ==> spec_sink_ids(*config).contains(
                    region_sink(#[trigger] config.regions@[a]),
                ),
        decreases n - k,
    {
        let (rs, rk) = match config.regions[k].region {
            crate::runtime_config::RegionType::Display { source, sink } => (source, sink),
        };
        if !ids_contain(&source_ids, rs) {
            return Err(
                ConfigError::UnknownSourceRef {
                    region_id: config.regions[k].id,
                    source_id: rs,
                },
            );
        }
        if !ids_contain(&sink_ids, rk) {
            return Err(
                ConfigError::UnknownSinkRef { region_id: config.regions[k].id, sink_id: rk },
            );
        }
        k = k + 1;
    }

    let region_sinks = region_sink_list(config);
    if let Some(p) = find_duplicate_pair(&region_sinks) {
        return Err(
            ConfigError::SinkFedTwice {
                region_id: config.regions[p.1].id,
                sink_id: region_sinks[p.0],
            },
        );
    }
    Ok(())
}

/// The backend name of a source's processing chain.
fn source_chain_name(s: &SourceConfig) -> (r: String)
    ensures
        r@ == spec_source_chain_name(*s),
{
    match &s.source {
        SourceType::Test(t) => {
            let d = u32_to_dec(s.id);
            String::from_str("test-").concat(d.as_str())
        },
        SourceType::URI(u) => {
            let d = u32_to_dec(s.id);
            String::from_str("uri-").concat(d.as_str())
        },
    }
}

/// A content-preserving copy of a source kind.
fn duplicate_source_type(t: &SourceType) -> (r: SourceType)
    ensures
        source_type_matches(r, *t),
{
    match t {
        SourceType::Test(x) => SourceType::Test(crate::source::Test {}),
        SourceType::URI(u) => SourceType::URI(URI { uri: u.uri.clone() }),
    }
}

/// Plans the fan-out topology of a configuration.  Fails exactly on
/// invalid configurations, with the defect named, before any backend
/// operation exists; on success the graph realizes the configuration
/// operation by operation.
pub fn build(config: &RuntimeConfig) -> (r: Result<Graph, ConfigError>)
    ensures
        r is Ok <==> config_valid(*config),
        r matches Err(e) ==> config_error_witnessed(*config, e),
        r matches Ok(g) ==> graph_of_config(*config, g),
{
    if let Err(e) = validate(config) {
        return Err(e);
    }

    let ns = config.sources.len();
    let nk = config.sinks.len();
    let nr = config.regions.len();

    let mut ops: Vec<BackendOp> = Vec::new();

    let mut i: usize = 0;
    while i < ns
        invariant
            0 <= i <= ns,
            ns == config.sources@.len(),
            ops@.len() == 3 * i,
            forall|a: int| 0 <= a < i ==> source_ops_at(#[trigger] config.sources@[a], ops@, 3 * a),
        decreases ns - i,
    {
        let s = &config.sources[i];
        let chain_name = source_chain_name(s);
        let fanout_name = String::from_str("tee-").concat(chain_name.as_str());
        ops.push(
            BackendOp::CreateSourceChain {
                source_id: s.id,
                kind: duplicate_source_type(&s.source),
                name: chain_name,
            },
        );
        ops.push(BackendOp::CreateFanout { source_id: s.id, name: fanout_name });
        ops.push(BackendOp::LinkSourceToFanout { source_id: s.id });
        i = i + 1;
    }

    let mut j: usize = 0;
    while j < nk
        invariant
            0 <= j <= nk,
            ns == config.sources@.len(),
            nk == config.sinks@.len(),
            ops@.len() == 3 * ns + 3 * j,
            forall|a: int|
                0 <= a < ns ==> source_ops_at(#[trigger] config.sources@[a], ops@, 3 * a),
            forall|a: int|
                0 <= a < j ==> sink_ops_at(#[trigger] config.sinks@[a], ops@, 3 * ns + 3 * a),
        decreases nk - j,
    {
        let s = &config.sinks[j];
        let d = u32_to_dec(s.id);
        let chain_name = String::from_str("opengl-").concat(d.as_str());
        let queue_name = String::from_str("queue-").concat(chain_name.as_str());
        ops.push(BackendOp::CreateQueue { sink_id: s.id, name: queue_name });
        ops.push(BackendOp::CreateSinkChain { sink_id: s.id, name: chain_name });
        ops.push(BackendOp::LinkQueueToSinkChain { sink_id: s.id });
        j = j + 1;
    }

    let mut edges: Vec<(u32, u32)> = Vec::new();
    let mut m: usize = 0;
    while m < nr
        invariant
            0 <= m <= nr,
            ns == config.sources@.len(),
            nk == config.sinks@.len(),
            nr == config.regions@.len(),
            ops@.len() == 3 * ns + 3 * nk + m,
            forall|a: int|
                0 <= a < ns ==> source_ops_at(#[trigger] config.sources@[a], ops@, 3 * a),
            forall|a: int|
                0 <= a < nk ==> sink_ops_at(#[trigger] config.sinks@[a], ops@, 3 * ns + 3 * a),
            forall|a: int|
                0 <= a < m ==> region_op_at(
                    #[trigger] config.regions@[a],
                    ops@,
                    3 * ns + 3 * nk + a,
                ),
            edges@.len() == m,
            forall|a: int|
                0 <= a < m ==> (#[trigger] edges@[a]).0 == region_source(config.regions@[a])
                    && edges@[a].1 == region_sink(config.regions@[a]),
        decreases nr - m,
    {
        let r = &config.regions[m];
        let (rs, rk) = match r.region {
            crate::runtime_config::RegionType::Display { source, sink } => (source, sink),
        };
        ops.push(
            BackendOp::LinkFanoutToQueue { region_id: r.id, source_id: rs, sink_id: rk },
        );
        edges.push((rs, rk));
        m = m + 1;
    }

    let source_ids = source_id_list(config);
    let sink_ids = sink_id_list(config);
    Ok(Graph { ops, source_ids, sink_ids, edges })
}

/// A backend element-creation or link failure, named by the offending
/// source, sink or region id.
#[derive(Clone, Copy, PartialEq, Eq, Debug, Structural)]
pub enum BuildError {
    SourceFailed { source_id: u32 },
    SinkFailed { sink_id: u32 },
    RegionFailed { region_id: u32 },
}

/// Whether an operation creates a backend element, as opposed to
/// linking two existing ones.
pub open spec fn op_creates(op: BackendOp) -> bool {
    match op {
        BackendOp::CreateSourceChain { .. } => true,
        BackendOp::CreateFanout { .. } => true,
        BackendOp::CreateQueue { .. } => true,
        BackendOp::CreateSinkChain { .. } => true,
        _ => false,
    }
}

/// The error a failure of this operation is reported as.
pub open spec fn op_failure(op: BackendOp) -> BuildError {
    match op {
        BackendOp::CreateSourceChain { source_id, .. } => BuildError::SourceFailed { source_id },
        BackendOp::CreateFanout { source_id, .. } => BuildError::SourceFailed { source_id },
        BackendOp::LinkSourceToFanout { source_id } => BuildError::SourceFailed { source_id },
        BackendOp::CreateQueue { sink_id, .. } => BuildError::SinkFailed { sink_id },
        BackendOp::CreateSinkChain { sink_id, .. } => BuildError::SinkFailed { sink_id },
        BackendOp::LinkQueueToSinkChain { sink_id } => BuildError::SinkFailed { sink_id },
        BackendOp::LinkFanoutToQueue { region_id, source_id, sink_id } => BuildError::RegionFailed {
            region_id,
        },
    }
}

/// Tracks the backend's execution of a plan, so that a failure part way
/// through can be answered with the exact teardown list: every element
/// created so far, in reverse creation order.  No partial graph leaks.
#[derive(Debug)]
pub struct BuildProgress {
    /// The index of the next operation to run.
    pub next: usize,
    /// The indexes of the creation operations already run, in order.
    pub created: Vec<usize>,
}

/// The progress record is consistent with the plan: everything recorded
/// as created lies before `next`, is a creation operation, is recorded
/// in increasing order, and nothing created is missing.
pub open spec fn progress_wf(p: BuildProgress, g: Graph) -> bool {
    &&& p.next <= g.ops@.len()
    &&& forall|k: int|
        0 <= k < p.created@.len() ==> (#[trigger] p.created@[k]) < p.next && op_creates(
            g.ops@[p.created@[k] as int],
        )
    &&& forall|k: int, l: int|
        0 <= k < l < p.created@.len() ==> p.created@[k] < p.created@[l]
    &&& forall|o: int|
        0 <= o < p.next && op_creates(#[trigger] g.ops@[o]) ==> p.created@.contains(o as usize)
}

impl BuildProgress {
    /// Progress over a plan none of which has run yet.
    pub fn new() -> (r: BuildProgress)
        ensures
            r.next == 0,
            r.created@.len() == 0,
    {
        BuildProgress { next: 0, created: Vec::new() }
    }

    /// The index of the next operation to run.
    pub fn position(&self) -> (r: usize)
        ensures
            r == self.next,
    {
        self.next
    }

    /// Whether every operation of the plan has run.
    pub fn is_done(&self, g: &Graph) -> (r: bool)
        requires
            progress_wf(*self, *g),
        ensures
            r == (self.next == g.ops@.len()),
    {
        self.next == g.ops.len()
    }

    /// Records that the backend ran the current operation successfully.
    pub fn op_done(&mut self, g: &Graph)
        requires
            progress_wf(*old(self), *g),
            old(self).next < g.ops@.len(),
        ensures
            progress_wf(*final(self), *g),
            final(self).next == old(self).next + 1,
    {
        let n = g.ops.len();
        let idx = self.next;
        let creates = match &g.ops[idx] {
            BackendOp::CreateSourceChain { .. } => true,
            BackendOp::CreateFanout { .. } => true,
            BackendOp::CreateQueue { .. } => true,
            BackendOp::CreateSinkChain { .. } => true,
            _ => false,
        };
        if creates {
            self.created.push(idx);
        }
        self.next = idx + 1;
        proof {
            let oc = old(self).created@;
            let nc = self.created@;
            assert forall|o: int|
                0 <= o < self.next && op_creates(#[trigger] g.ops@[o]) implies nc.contains(
                o as usize,
            ) by {
                if o < idx {
                    assert(oc.contains(o as usize));
                    let w = choose|w: int| 0 <= w < oc.len() && oc[w] == o as usize;
                    assert(nc[w] == o as usize);
                } else {
                    assert(nc[nc.len() - 1] == idx as usize);
                }
            }
        }
    }

    /// Answers a failure of the current operation: the indexes of every
    /// element created so far, in reverse creation order — the exact
    /// teardown the backend must perform — and the error naming the
    /// offending id.
    pub fn op_failed(&self, g: &Graph) -> (r: (Vec<usize>, BuildError))
        requires
            progress_wf(*self, *g),
            self.next < g.ops@.len(),
        ensures
            r.1 == op_failure(g.ops@[self.next as int]),
            r.0@.len() == self.created@.len(),
            forall|k: int|
                0 <= k < r.0@.len() ==> (#[trigger] r.0@[k]) == self.created@[self.created@.len()
                    - 1 - k],
    {
        let err = match &g.ops[self.next] {
            BackendOp::CreateSourceChain { source_id, .. } => BuildError::SourceFailed {
                source_id: *source_id,
            },
            BackendOp::CreateFanout { source_id, .. } => BuildError::SourceFailed {
                source_id: *source_id,
            },
            BackendOp::LinkSourceToFanout { source_id } => BuildError::SourceFailed {
                source_id: *source_id,
            },
            BackendOp::CreateQueue { sink_id, .. } => BuildError::SinkFailed { sink_id: *sink_id },
            BackendOp::CreateSinkChain { sink_id, .. } => BuildError::SinkFailed {
                sink_id: *sink_id,
            },
            BackendOp::LinkQueueToSinkChain { sink_id } => BuildError::SinkFailed {
                sink_id: *sink_id,
            },
            BackendOp::LinkFanoutToQueue { region_id, .. } => BuildError::RegionFailed {
                region_id: *region_id,
            },
        };
        let n = self.created.len();
        let mut teardown: Vec<usize> = Vec::new();
        let mut k: usize = 0;
        while k < n
            invariant
                0 <= k <= n,
                n == self.created@.len(),
                teardown@.len() == k,
                forall|a: int|
                    0 <= a < k ==> (#[trigger] teardown@[a]) == self.created@[n - 1 - a],
            decreases n - k,
        {
            teardown.push(self.created[n - 1 - k]);
            k = k + 1;
        }
        (teardown, err)
    }
}

/// There is an edge — a planned junction branch — from this source to
/// this sink.
pub open spec fn reaches(g: Graph, source_id: u32, sink_id: u32) -> bool {
    exists|k: int| 0 <= k < g.edges@.len() && #[trigger] g.edges@[k] == (source_id, sink_id)
}

/// The sinks fed by this source, in region order.
pub open spec fn spec_frame_targets(edges: Seq<(u32, u32)>, source_id: u32) -> Seq<u32>
    decreases edges.len(),
{
    if edges.len() == 0 {
        Seq::empty()
    } else if edges.last().0 == source_id {
        spec_frame_targets(edges.drop_last(), source_id) + seq![edges.last().1]
    } else {
        spec_frame_targets(edges.drop_last(), source_id)
    }
}

/// How many of `frames` frames emitted by this source's chain arrive at
/// this sink's capture point: all of them when a branch connects the
/// two, none otherwise.
pub open spec fn frames_delivered(g: Graph, source_id: u32, sink_id: u32, frames: nat) -> nat {
    if reaches(g, source_id, sink_id) {
        frames
    } else {
        0
    }
}

/// The sinks fed by this source, in region order.
pub fn frame_targets(g: &Graph, source_id: u32) -> (r: Vec<u32>)
    ensures
        r@ == spec_frame_targets(g.edges@, source_id),
{
    let n = g.edges.len();
    let mut out: Vec<u32> = Vec::new();
    let mut i: usize = 0;
    while i < n
        invariant
            0 <= i <= n,
            n == g.edges@.len(),
            out@ == spec_frame_targets(g.edges@.subrange(0, i as int), source_id),
        decreases n - i,
    {
        let e = g.edges[i];
        proof {
            assert(g.edges@.subrange(0, i + 1).drop_last() =~= g.edges@.subrange(0, i as int));
            assert(g.edges@.subrange(0, i + 1).last() == g.edges@[i as int]);
        }
        if e.0 == source_id {
            out.push(e.1);
        }
        i = i + 1;
    }
    proof {
        assert(g.edges@.subrange(0, n as int) =~= g.edges@);
    }
    out
}

/// A sink is a frame target of a source exactly when an edge connects
/// the two.
pub proof fn lemma_frame_targets_reach(edges: Seq<(u32, u32)>, source_id: u32, sink_id: u32)
    ensures
        spec_frame_targets(edges, source_id).contains(sink_id) <==> exists|k: int|
            0 <= k < edges.len() && #[trigger] edges[k] == (source_id, sink_id),
    decreases edges.len(),
{
    if edges.len() == 0 {
    } else {
        let head = edges.drop_last();
        lemma_frame_targets_reach(head, source_id, sink_id);
        let t = spec_frame_targets(edges, source_id);
        let th = spec_frame_targets(head, source_id);
        if t.contains(sink_id) {
            let w = choose|w: int| 0 <= w < t.len() && t[w] == sink_id;
            if edges.last().0 == source_id && w == t.len() - 1 {
                assert(t[w] == edges.last().1);
                assert(edges[edges.len() - 1] == (source_id, sink_id));
            } else {
                assert(t[w] == th[w]);
                assert(th.contains(sink_id));
                let k = choose|k: int| 0 <= k < head.len() && #[trigger] head[k] == (
                    source_id,
                    sink_id,
                );
                assert(edges[k] == (source_id, sink_id));
            }
        }
        if exists|k: int| 0 <= k < edges.len() && #[trigger] edges[k] == (source_id, sink_id) {
            let k = choose|k: int| 0 <= k < edges.len() && #[trigger] edges[k] == (
                source_id,
                sink_id,
            );
            if k == edges.len() - 1 {
                assert(edges.last() == (source_id, sink_id));
                assert(t.last() == sink_id);
                assert(t.contains(sink_id));
            } else {
                assert(head[k] == (source_id, sink_id));
                assert(th.contains(sink_id));
                let w = choose|w: int| 0 <= w < th.len() && th[w] == sink_id;
                assert(t[w] == sink_id);
                assert(t.contains(sink_id));
            }
        }
    }
}

/// The fan-out law: with one source feeding two regions that target two
/// distinct sinks, the planned graph reaches both sinks from that one
/// source, the source's frame targets are exactly those two sinks, and
/// every frame the source emits is delivered to each of the two.
pub proof fn lemma_fan_out(
    c: RuntimeConfig,
    g: Graph,
    source_id: u32,
    sink_a: u32,
    sink_b: u32,
    frames: nat,
)
    requires
        graph_of_config(c, g),
        c.regions@.len() == 2,
        region_source(c.regions@[0]) == source_id,
        region_sink(c.regions@[0]) == sink_a,
        region_source(c.regions@[1]) == source_id,
        region_sink(c.regions@[1]) == sink_b,
        sink_a != sink_b,
    ensures
        reaches(g, source_id, sink_a),
        reaches(g, source_id, sink_b),
        spec_frame_targets(g.edges@, source_id) == seq![sink_a, sink_b],
        frames_delivered(g, source_id, sink_a, frames) == frames,
        frames_delivered(g, source_id, sink_b, frames) == frames,
{
    assert(g.edges@[0] == (source_id, sink_a));
    assert(g.edges@[1] == (source_id, sink_b));
    assert(g.edges@.len() == 2);
    let head = g.edges@.drop_last();
    assert(head =~= seq![(source_id, sink_a)]);
    assert(head.drop_last() =~= Seq::<(u32, u32)>::empty());
    assert(spec_frame_targets(head.drop_last(), source_id) =~= Seq::<u32>::empty());
    assert(spec_frame_targets(head, source_id) =~= seq![sink_a]);
    assert(spec_frame_targets(g.edges@, source_id) =~= seq![sink_a, sink_b]);
}

} // verus!
