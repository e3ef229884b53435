//! Properties that relate several operations of the library: what a read
//! gives back of a write, what one call undoes of another, and what the
//! catalogs offered promise of the requests served.

use crate::ast::{
    edge_id, hex_decode_spec, hex_digit, hex_lower, hex_val, first_non_hex, lemma_hex_lower_len, Edge,
    EdgeKind, Node, NodeId,
};
use crate::graph::{
    append_at, edges_not_from, edges_not_to, list_at, remove_id_at, strip_sources, strip_targets,
    walk_between, without_id, GraphView,
};
use crate::tools::{hex_id_bytes, tool_names, tool_of};
use crate::args::{no_eq, splits_at_first_eq};
use crate::prompts::{arg_of, prompt_arguments, prompt_names, prompt_outcome, RepositoryInfo};
use crate::recovery::{
    admits, after_admission, after_failure, after_success, fresh_breaker, BreakerView,
    CircuitBreakerConfig, CircuitBreakerState,
};
use crate::resources::{file_uri_prefix, fixed_resource_uris, route_of, ResourceRoute};
use crate::profiles::{profile_file_name, profile_stem, profile_stems};
use crate::buckets::{bucket_count, bucket_of, buckets_of, BucketCount};
use crate::metrics::AnalyzedEvent;
use crate::counts::{entry_name, NamedCounts};
use crate::logging::{category_count, error_category, ErrorCollector, ErrorEvent};
use crate::reports::{all_valid, failures};
use crate::recovery::{category, retry_policy, retryable, ErrorCategory, RetryPolicy};
use crate::errors::TestHarnessError;
use crate::tools::{dependency_type_of, symbol_kind_of};
use crate::graph::{dependency_includes, DependencyType};
use crate::ast::NodeKind;
use crate::text::ascii_lower;
use crate::resources::mime_for;
use crate::validation::ValidationResult;
use vstd::prelude::*;
use vstd::utf8::{encode_utf8, is_ascii_chars, is_ascii_chars_encode_utf8};

verus! {

// ------------------------------------------------------------ identifiers

proof fn lemma_hex_lower_index(b: Seq<u8>)
    ensures
        hex_lower(b).len() == 2 * b.len(),
        forall|k: int|
            0 <= k < b.len() ==> hex_lower(b)[2 * k] == hex_digit((b[k] / 16) as nat) && hex_lower(
                b,
            )[2 * k + 1] == hex_digit((b[k] % 16) as nat),
    decreases b.len(),
{
    if b.len() > 0 {
        lemma_hex_lower_index(b.drop_first());
        let h = hex_lower(b);
        let t = hex_lower(b.drop_first());
        assert forall|k: int|
            0 <= k < b.len() implies h[2 * k] == hex_digit((b[k] / 16) as nat) && h[2 * k + 1]
                == hex_digit((b[k] % 16) as nat) by {
            if k > 0 {
                assert(b[k] == b.drop_first()[k - 1]);
                assert(h[2 * k] == t[2 * (k - 1)]);
                assert(h[2 * k + 1] == t[2 * (k - 1) + 1]);
            }
        }
    }
}

proof fn lemma_hex_digit_value(v: nat)
    requires
        v < 16,
    ensures
        hex_val(hex_digit(v) as u8) == Some(v),
        '\0' <= hex_digit(v) <= '\u{7f}',
{
}

proof fn lemma_all_hex(e: Seq<u8>, i: int)
    requires
        0 <= i,
        forall|j: int| i <= j < e.len() ==> hex_val(#[trigger] e[j]) is Some,
    ensures
        first_non_hex(e, i) is None,
    decreases e.len() - i,
{
    if i < e.len() {
        lemma_all_hex(e, i + 1);
    }
}

/// Writing an identifier in hex and reading it back gives the identifier:
/// the sixteen bytes are recovered from their thirty-two digits.
pub proof fn law_node_id_hex_roundtrip(id: NodeId)
    ensures
        hex_id_bytes(hex_lower(id.0@)) == Some(id.0@),
{
    let b = id.0@;
    let h = hex_lower(b);
    lemma_hex_lower_index(b);
    assert forall|i: int| 0 <= i < h.len() implies '\0' <= #[trigger] h[i] <= '\u{7f}' by {
        let k = i / 2;
        if i % 2 == 0 {
            assert(i == 2 * k);
            lemma_hex_digit_value((b[k] / 16) as nat);
        } else {
            assert(i == 2 * k + 1);
            lemma_hex_digit_value((b[k] % 16) as nat);
        }
    }
    assert(is_ascii_chars(h));
    is_ascii_chars_encode_utf8(h);
    let e = encode_utf8(h);
    assert forall|j: int| 0 <= j < e.len() implies hex_val(#[trigger] e[j]) is Some by {
        let k = j / 2;
        assert(e[j] == h[j] as u8);
        if j % 2 == 0 {
            assert(j == 2 * k);
            lemma_hex_digit_value((b[k] / 16) as nat);
        } else {
            assert(j == 2 * k + 1);
            lemma_hex_digit_value((b[k] % 16) as nat);
        }
    }
    lemma_all_hex(e, 0);
    reveal(hex_decode_spec);
    assert(e.len() % 2 == 0);
    let d = Seq::new(
        (e.len() / 2) as nat,
        |k: int| (hex_val(e[2 * k])->0 * 16 + hex_val(e[2 * k + 1])->0) as u8,
    );
    assert(hex_decode_spec(e) == Ok::<Seq<u8>, crate::ast::HexError>(d));
    assert forall|k: int| 0 <= k < b.len() implies d[k] == b[k] by {
        assert(e[2 * k] == h[2 * k] as u8);
        assert(e[2 * k + 1] == h[2 * k + 1] as u8);
        lemma_hex_digit_value((b[k] / 16) as nat);
        lemma_hex_digit_value((b[k] % 16) as nat);
        assert((b[k] / 16) * 16 + b[k] % 16 == b[k]);
    }
    assert(d =~= b);
}

// ------------------------------------------------------------ graph

/// The first two letters and the length of a kind's name, which tell the
/// kinds apart.
spec fn kind_sig(k: EdgeKind) -> (char, char, nat) {
    match k {
        EdgeKind::Calls => ('C', 'a', 5),
        EdgeKind::Reads => ('R', 'e', 5),
        EdgeKind::Writes => ('W', 'r', 6),
        EdgeKind::Imports => ('I', 'm', 7),
        EdgeKind::Emits => ('E', 'm', 5),
        EdgeKind::RoutesTo => ('R', 'o', 8),
        EdgeKind::Raises => ('R', 'a', 6),
        EdgeKind::Extends => ('E', 'x', 7),
        EdgeKind::Implements => ('I', 'm', 10),
    }
}

proof fn lemma_kind_sig(k: EdgeKind)
    ensures
        k.name().len() == kind_sig(k).2,
        k.name()[0] == kind_sig(k).0,
        k.name()[1] == kind_sig(k).1,
{
    match k {
        EdgeKind::Calls => reveal_strlit("Calls"),
        EdgeKind::Reads => reveal_strlit("Reads"),
        EdgeKind::Writes => reveal_strlit("Writes"),
        EdgeKind::Imports => reveal_strlit("Imports"),
        EdgeKind::Emits => reveal_strlit("Emits"),
        EdgeKind::RoutesTo => reveal_strlit("RoutesTo"),
        EdgeKind::Raises => reveal_strlit("Raises"),
        EdgeKind::Extends => reveal_strlit("Extends"),
        EdgeKind::Implements => reveal_strlit("Implements"),
    }
}

proof fn lemma_kind_name_injective(a: EdgeKind, b: EdgeKind)
    requires
        a.name() == b.name(),
    ensures
        a == b,
{
    lemma_kind_sig(a);
    lemma_kind_sig(b);
    assert(kind_sig(a) == kind_sig(b));
}

proof fn lemma_hex_injective(a: NodeId, b: NodeId)
    requires
        hex_lower(a.0@) == hex_lower(b.0@),
    ensures
        a == b,
{
    law_node_id_hex_roundtrip(a);
    law_node_id_hex_roundtrip(b);
    assert(a.0@ == b.0@);
    broadcast use vstd::array::axiom_array_ext_equal;

    assert(a.0 =~= b.0);
}

/// Edge identifiers are unique: two different edges never share one.
pub proof fn law_edge_ids_unique(e1: Edge, e2: Edge)
    requires
        e1 != e2,
    ensures
        edge_id(e1) != edge_id(e2),
{
    if edge_id(e1) == edge_id(e2) {
        let i1 = edge_id(e1);
        let i2 = edge_id(e2);
        lemma_hex_lower_len(e1.source.0@);
        lemma_hex_lower_len(e2.source.0@);
        lemma_hex_lower_len(e1.target.0@);
        lemma_hex_lower_len(e2.target.0@);
        assert(i1.subrange(0, 32) =~= hex_lower(e1.source.0@));
        assert(i2.subrange(0, 32) =~= hex_lower(e2.source.0@));
        assert(i1.subrange(33, 65) =~= hex_lower(e1.target.0@));
        assert(i2.subrange(33, 65) =~= hex_lower(e2.target.0@));
        assert(i1.subrange(67, i1.len() as int) =~= e1.kind.name());
        assert(i2.subrange(67, i2.len() as int) =~= e2.kind.name());
        lemma_hex_injective(e1.source, e2.source);
        lemma_hex_injective(e1.target, e2.target);
        lemma_kind_name_injective(e1.kind, e2.kind);
    }
}

/// A node that was added is what its id gives back, and its id is listed
/// under its file, its name and its kind.
pub proof fn law_added_node_is_found(g: GraphView, n: Node)
    ensures
        g.nodes.insert(n.id, n)[n.id] == n,
        list_at(append_at(g.files, n.file@, n.id), n.file@).last() == n.id,
        list_at(append_at(g.symbols, n.name@, n.id), n.name@).last() == n.id,
        list_at(append_at(g.kinds, n.kind, n.id), n.kind).last() == n.id,
{
}

/// An edge that was added is the last outgoing edge of its source and the
/// last incoming edge of its target; the edges of other nodes stay as
/// they were.
pub proof fn law_added_edge_is_listed(g: GraphView, e: Edge)
    ensures
        list_at(append_at(g.outgoing, e.source, e), e.source).last() == e,
        list_at(append_at(g.incoming, e.target, e), e.target).last() == e,
        forall|k: NodeId|
            k != e.source ==> #[trigger] list_at(append_at(g.outgoing, e.source, e), k) == list_at(
                g.outgoing,
                k,
            ),
        forall|k: NodeId|
            k != e.target ==> #[trigger] list_at(append_at(g.incoming, e.target, e), k) == list_at(
                g.incoming,
                k,
            ),
{
}

proof fn lemma_not_to(s: Seq<Edge>, id: NodeId)
    ensures
        forall|e: Edge| #[trigger] edges_not_to(s, id).contains(e) ==> e.target != id,
    decreases s.len(),
{
    if s.len() > 0 {
        lemma_not_to(s.drop_last(), id);
        let rest = edges_not_to(s.drop_last(), id);
        assert forall|e: Edge| #[trigger] edges_not_to(s, id).contains(e) implies e.target != id by {
            if s.last().target != id {
                let r = rest.push(s.last());
                let i = choose|i: int| 0 <= i < r.len() && r[i] == e;
                if i < rest.len() {
                    assert(rest.contains(e));
                }
            }
        }
    }
}

proof fn lemma_not_from(s: Seq<Edge>, id: NodeId)
    ensures
        forall|e: Edge| #[trigger] edges_not_from(s, id).contains(e) ==> e.source != id,
    decreases s.len(),
{
    if s.len() > 0 {
        lemma_not_from(s.drop_last(), id);
        let rest = edges_not_from(s.drop_last(), id);
        assert forall|e: Edge| #[trigger] edges_not_from(s, id).contains(e) implies e.source
            != id by {
            if s.last().source != id {
                let r = rest.push(s.last());
                let i = choose|i: int| 0 <= i < r.len() && r[i] == e;
                if i < rest.len() {
                    assert(rest.contains(e));
                }
            }
        }
    }
}

/// Once a node is removed no edge list is kept for it, and no remaining
/// edge leads to it or leaves from it.
pub proof fn law_removed_node_is_detached(g: GraphView, id: NodeId)
    ensures
        !strip_targets(g.outgoing.remove(id), id).contains_key(id),
        !strip_sources(g.incoming.remove(id), id).contains_key(id),
        forall|k: NodeId, e: Edge|
            #![trigger list_at(strip_targets(g.outgoing.remove(id), id), k).contains(e)]
            list_at(strip_targets(g.outgoing.remove(id), id), k).contains(e) ==> e.target != id,
        forall|k: NodeId, e: Edge|
            #![trigger list_at(strip_sources(g.incoming.remove(id), id), k).contains(e)]
            list_at(strip_sources(g.incoming.remove(id), id), k).contains(e) ==> e.source != id,
{
    let out = g.outgoing.remove(id);
    let inc = g.incoming.remove(id);
    assert forall|k: NodeId, e: Edge|
        #![trigger list_at(strip_targets(out, id), k).contains(e)]
        list_at(strip_targets(out, id), k).contains(e) implies e.target != id by {
        if out.contains_key(k) {
            lemma_not_to(out[k], id);
        }
    }
    assert forall|k: NodeId, e: Edge|
        #![trigger list_at(strip_sources(inc, id), k).contains(e)]
        list_at(strip_sources(inc, id), k).contains(e) implies e.source != id by {
        if inc.contains_key(k) {
            lemma_not_from(inc[k], id);
        }
    }
}

proof fn lemma_without_absent(s: Seq<NodeId>, id: NodeId)
    requires
        !s.contains(id),
    ensures
        without_id(s, id) == s,
    decreases s.len(),
{
    if s.len() > 0 {
        assert(!s.drop_last().contains(id)) by {
            if s.drop_last().contains(id) {
                let i = choose|i: int| 0 <= i < s.drop_last().len() && s.drop_last()[i] == id;
                assert(s[i] == id);
            }
        }
        lemma_without_absent(s.drop_last(), id);
        assert(s.last() != id) by {
            assert(s[s.len() - 1] == s.last());
        }
        assert(s.drop_last().push(s.last()) =~= s);
    }
}

proof fn lemma_without_pushed(s: Seq<NodeId>, id: NodeId)
    requires
        !s.contains(id),
    ensures
        without_id(s.push(id), id) == s,
{
    assert(s.push(id).drop_last() =~= s);
    lemma_without_absent(s, id);
}

proof fn lemma_add_then_remove_list<K>(m: Map<K, Seq<NodeId>>, key: K, id: NodeId)
    requires
        forall|k: K| !(#[trigger] list_at(m, k)).contains(id),
    ensures
        forall|k: K|
            #[trigger] list_at(remove_id_at(append_at(m, key, id), key, id), k) == list_at(m, k),
{
    lemma_without_pushed(list_at(m, key), id);
    assert forall|k: K|
        #[trigger] list_at(remove_id_at(append_at(m, key, id), key, id), k) == list_at(m, k) by {
        if k == key {
            assert(!list_at(m, key).contains(id));
        }
    }
}

proof fn lemma_not_to_keeps(s: Seq<Edge>, id: NodeId)
    requires
        forall|e: Edge| #[trigger] s.contains(e) ==> e.target != id,
    ensures
        edges_not_to(s, id) == s,
    decreases s.len(),
{
    if s.len() > 0 {
        assert forall|e: Edge| #[trigger] s.drop_last().contains(e) implies e.target != id by {
            let i = choose|i: int| 0 <= i < s.drop_last().len() && s.drop_last()[i] == e;
            assert(s[i] == e);
            assert(s.contains(e));
        }
        lemma_not_to_keeps(s.drop_last(), id);
        assert(s.contains(s[s.len() - 1]));
        assert(s.drop_last().push(s.last()) =~= s);
    }
}

proof fn lemma_not_from_keeps(s: Seq<Edge>, id: NodeId)
    requires
        forall|e: Edge| #[trigger] s.contains(e) ==> e.source != id,
    ensures
        edges_not_from(s, id) == s,
    decreases s.len(),
{
    if s.len() > 0 {
        assert forall|e: Edge| #[trigger] s.drop_last().contains(e) implies e.source != id by {
            let i = choose|i: int| 0 <= i < s.drop_last().len() && s.drop_last()[i] == e;
            assert(s[i] == e);
            assert(s.contains(e));
        }
        lemma_not_from_keeps(s.drop_last(), id);
        assert(s.contains(s[s.len() - 1]));
        assert(s.drop_last().push(s.last()) =~= s);
    }
}

/// Removing a node undoes adding it: when the node was new to the graph,
/// no index listed its id and no edge touched it, adding it and removing
/// it again leaves the same nodes, the same edge lists, and the same ids
/// under every file, name and kind (an index may keep an empty list where
/// it had none).
pub proof fn law_remove_undoes_add(g: GraphView, n: Node)
    requires
        !g.nodes.contains_key(n.id),
        forall|k: Seq<char>| !(#[trigger] list_at(g.files, k)).contains(n.id),
        forall|k: Seq<char>| !(#[trigger] list_at(g.symbols, k)).contains(n.id),
        forall|k: crate::ast::NodeKind| !(#[trigger] list_at(g.kinds, k)).contains(n.id),
        !g.outgoing.contains_key(n.id),
        !g.incoming.contains_key(n.id),
        forall|k: NodeId, e: Edge| #[trigger] list_at(g.outgoing, k).contains(e) ==> e.target != n.id,
        forall|k: NodeId, e: Edge| #[trigger] list_at(g.incoming, k).contains(e) ==> e.source != n.id,
    ensures
        g.nodes.insert(n.id, n).remove(n.id) == g.nodes,
        g.nodes.insert(n.id, n)[n.id] == n,
        forall|k: Seq<char>|
            #[trigger] list_at(remove_id_at(append_at(g.files, n.file@, n.id), n.file@, n.id), k)
                == list_at(g.files, k),
        forall|k: Seq<char>|
            #[trigger] list_at(remove_id_at(append_at(g.symbols, n.name@, n.id), n.name@, n.id), k)
                == list_at(g.symbols, k),
        forall|k: crate::ast::NodeKind|
            #[trigger] list_at(remove_id_at(append_at(g.kinds, n.kind, n.id), n.kind, n.id), k)
                == list_at(g.kinds, k),
        strip_targets(g.outgoing.remove(n.id), n.id) == g.outgoing,
        strip_sources(g.incoming.remove(n.id), n.id) == g.incoming,
{
    assert(g.nodes.insert(n.id, n).remove(n.id) =~= g.nodes);
    lemma_add_then_remove_list(g.files, n.file@, n.id);
    lemma_add_then_remove_list(g.symbols, n.name@, n.id);
    lemma_add_then_remove_list(g.kinds, n.kind, n.id);
    assert(g.outgoing.remove(n.id) =~= g.outgoing);
    assert(g.incoming.remove(n.id) =~= g.incoming);
    assert forall|k: NodeId| g.outgoing.contains_key(k) implies #[trigger] edges_not_to(g.outgoing[k], n.id)
        == g.outgoing[k] by {
        assert forall|e: Edge| #[trigger] g.outgoing[k].contains(e) implies e.target != n.id by {
            assert(list_at(g.outgoing, k).contains(e));
        }
        lemma_not_to_keeps(g.outgoing[k], n.id);
    }
    assert forall|k: NodeId| g.incoming.contains_key(k) implies #[trigger] edges_not_from(g.incoming[k], n.id)
        == g.incoming[k] by {
        assert forall|e: Edge| #[trigger] g.incoming[k].contains(e) implies e.source != n.id by {
            assert(list_at(g.incoming, k).contains(e));
        }
        lemma_not_from_keeps(g.incoming[k], n.id);
    }
    assert(strip_targets(g.outgoing.remove(n.id), n.id) =~= g.outgoing);
    assert(strip_sources(g.incoming.remove(n.id), n.id) =~= g.incoming);
}

/// Every node reaches itself by the empty walk, so a path search from a
/// node to itself finds distance zero.
pub proof fn law_node_reaches_itself(g: GraphView, id: NodeId)
    ensures
        walk_between(g, seq![id], Seq::<Edge>::empty(), id, id),
{
}

// ------------------------------------------------------------ circuit breaker

/// The breaker after `n` failed calls in a row.
pub open spec fn after_failures(b: BreakerView, n: nat) -> BreakerView
    decreases n,
{
    if n == 0 {
        b
    } else {
        after_failure(after_failures(b, (n - 1) as nat))
    }
}

/// The breaker after `n` successful calls in a row.
pub open spec fn after_successes(b: BreakerView, n: nat) -> BreakerView
    decreases n,
{
    if n == 0 {
        b
    } else {
        after_success(after_successes(b, (n - 1) as nat))
    }
}

/// A fresh breaker stays closed, counting its failures, until they reach
/// the threshold; from then on it is open.
pub proof fn law_failures_open_the_circuit(config: CircuitBreakerConfig, n: nat)
    requires
        n < u32::MAX,
    ensures
        n < config.failure_threshold ==> after_failures(fresh_breaker(config), n).state
            == CircuitBreakerState::Closed,
        n >= 1 && n >= config.failure_threshold ==> after_failures(fresh_breaker(config), n).state
            == CircuitBreakerState::Open,
        after_failures(fresh_breaker(config), n).failure_count == n,
        after_failures(fresh_breaker(config), n).config == config,
    decreases n,
{
    if n > 0 {
        law_failures_open_the_circuit(config, (n - 1) as nat);
    }
}

/// A failure in the half-open state opens the circuit again and forgets the
/// successes counted.
pub proof fn law_half_open_failure_reopens(b: BreakerView)
    requires
        b.state == CircuitBreakerState::HalfOpen,
    ensures
        after_failure(b).state == CircuitBreakerState::Open,
        after_failure(b).success_count == 0,
{
}

/// In the half-open state, as many successes in a row as the threshold
/// close the circuit with no failures counted; fewer keep it half open.
pub proof fn law_half_open_successes_close(b: BreakerView, n: nat)
    requires
        b.state == CircuitBreakerState::HalfOpen,
        b.success_count == 0,
        1 <= b.config.success_threshold,
        n <= b.config.success_threshold,
    ensures
        n < b.config.success_threshold ==> after_successes(b, n).state
            == CircuitBreakerState::HalfOpen && after_successes(b, n).success_count == n,
        n == b.config.success_threshold ==> after_successes(b, n).state
            == CircuitBreakerState::Closed && after_successes(b, n).failure_count == 0,
        after_successes(b, n).config == b.config,
    decreases n,
{
    if n > 0 {
        law_half_open_successes_close(b, (n - 1) as nat);
    }
}

/// A success while closed forgets the failures counted so far.
pub proof fn law_success_resets_failures(b: BreakerView)
    requires
        b.state == CircuitBreakerState::Closed,
    ensures
        after_success(b).state == CircuitBreakerState::Closed,
        after_success(b).failure_count == 0,
{
}

/// An open circuit lets no call through before its timeout has passed,
/// and stays as it is.
pub proof fn law_open_circuit_blocks(b: BreakerView, elapsed_ms: u128)
    requires
        b.state == CircuitBreakerState::Open,
        elapsed_ms <= b.config.timeout_ms,
    ensures
        !admits(b, Some(elapsed_ms)),
        after_admission(b, Some(elapsed_ms)) == b,
{
}

/// A half-open circuit never lets more trial calls through than allowed.
pub proof fn law_half_open_calls_bounded(b: BreakerView, elapsed_ms: Option<u128>)
    requires
        b.state == CircuitBreakerState::HalfOpen,
        b.half_open_calls <= b.config.half_open_max_calls,
    ensures
        after_admission(b, elapsed_ms).half_open_calls <= b.config.half_open_max_calls,
        admits(b, elapsed_ms) ==> after_admission(b, elapsed_ms).half_open_calls
            == b.half_open_calls + 1,
{
}

// ------------------------------------------------------------ catalogs

/// Every prompt that is listed is served when its required arguments are
/// given.
pub proof fn law_listed_prompts_are_served(
    i: int,
    args: Option<Vec<(String, String)>>,
    repo: Option<RepositoryInfo>,
)
    requires
        0 <= i < 5,
        forall|j: int|
            0 <= j < prompt_arguments(i).len() && (#[trigger] prompt_arguments(i)[j]).1 ==> arg_of(
                args,
                prompt_arguments(i)[j].0,
            ) is Some,
    ensures
        prompt_outcome(prompt_names()[i], args, repo) is Ok,
{
    reveal_strlit("repository_overview");
    reveal_strlit("code_analysis");
    reveal_strlit("debug_assistance");
    reveal_strlit("debug_issue");
    reveal_strlit("refactoring_guidance");
    lemma_prompt_names_distinct();
    if i == 2 {
        assert(prompt_arguments(i)[0].1);
    } else if i == 3 {
        assert(prompt_arguments(i)[0].1);
    } else if i == 4 {
        assert(prompt_arguments(i)[0].1);
    }
}

proof fn lemma_prompt_names_distinct()
    ensures
        forall|a: int, b: int|
            0 <= a < 5 && 0 <= b < 5 && a != b ==> #[trigger] prompt_names()[a]
                != #[trigger] prompt_names()[b],
{
    reveal_strlit("repository_overview");
    reveal_strlit("code_analysis");
    reveal_strlit("debug_assistance");
    reveal_strlit("debug_issue");
    reveal_strlit("refactoring_guidance");
    assert(prompt_names()[0].len() == 19);
    assert(prompt_names()[1].len() == 13);
    assert(prompt_names()[2].len() == 16);
    assert(prompt_names()[3].len() == 11);
    assert(prompt_names()[4].len() == 20);
}

/// A prompt whose required argument is missing is refused.
pub proof fn law_missing_required_argument_refused(
    i: int,
    args: Option<Vec<(String, String)>>,
    repo: Option<RepositoryInfo>,
)
    requires
        0 <= i < 5,
        prompt_arguments(i)[0].1,
        arg_of(args, prompt_arguments(i)[0].0) is None,
    ensures
        prompt_outcome(prompt_names()[i], args, repo) is Err,
{
    reveal_strlit("repository_overview");
    reveal_strlit("code_analysis");
    reveal_strlit("debug_assistance");
    reveal_strlit("debug_issue");
    reveal_strlit("refactoring_guidance");
    lemma_prompt_names_distinct();
    assert(prompt_names()[0] == "repository_overview"@);
    assert(prompt_names()[1] == "code_analysis"@);
}

/// Every tool that is listed can be called, and only those.
pub proof fn law_listed_tools_are_routed(name: Seq<char>)
    ensures
        forall|i: int| 0 <= i < 6 ==> #[trigger] tool_of(tool_names()[i]) is Some,
        tool_of(name) is Some ==> exists|i: int| 0 <= i < 6 && #[trigger] tool_names()[i] == name,
{
    reveal_strlit("repository_stats");
    reveal_strlit("trace_path");
    reveal_strlit("explain_symbol");
    reveal_strlit("find_dependencies");
    reveal_strlit("find_references");
    reveal_strlit("search_symbols");
    if tool_of(name) is Some {
        if name == "repository_stats"@ {
            assert(tool_names()[0] == name);
        } else if name == "trace_path"@ {
            assert(tool_names()[1] == name);
        } else if name == "explain_symbol"@ {
            assert(tool_names()[2] == name);
        } else if name == "find_dependencies"@ {
            assert(tool_names()[3] == name);
        } else if name == "find_references"@ {
            assert(tool_names()[4] == name);
        } else {
            assert(tool_names()[5] == name);
        }
    }
}

/// Every fixed resource that is listed can be read, and so can every file
/// listed under the file prefix, by its relative path.
pub proof fn law_listed_resources_are_readable(rel: Seq<char>)
    ensures
        forall|i: int| 0 <= i < 9 ==> #[trigger] route_of(fixed_resource_uris()[i]) is Ok,
        forall|i: int|
            0 <= i < 9 ==> !(#[trigger] route_of(fixed_resource_uris()[i]) matches Ok(
                ResourceRoute::File(_),
            )),
        route_of(file_uri_prefix() + rel) matches Ok(ResourceRoute::File(_)),
{
    reveal_strlit("gcore://repository/");
    reveal_strlit("gcore://repository/stats");
    reveal_strlit("gcore://repository/config");
    reveal_strlit("gcore://repository/tree");
    reveal_strlit("gcore://graph/repository");
    reveal_strlit("gcore://symbols/functions");
    reveal_strlit("gcore://symbols/classes");
    reveal_strlit("gcore://symbols/variables");
    reveal_strlit("gcore://symbols/modules");
    reveal_strlit("gcore://graph/");
    reveal_strlit("gcore://symbols/");
    reveal_strlit("gcore://repository/file/");
    let u = file_uri_prefix() + rel;
    assert(u.subrange(0, 19) =~= "gcore://repository/"@);
    assert(u.subrange(0, 24) =~= file_uri_prefix());
    assert(u[19] == 'f');
    assert(u != "gcore://repository/"@) by {
        if rel.len() == 0 {
            assert(u.len() == 24);
        }
    }
    assert(u != "gcore://repository/stats"@ && u != "gcore://repository/config"@ && u
        != "gcore://repository/tree"@) by {
        assert("gcore://repository/stats"@[19] == 's');
        assert("gcore://repository/config"@[19] == 'c');
        assert("gcore://repository/tree"@[19] == 't');
    }
    assert(u != "gcore://graph/repository"@ && u != "gcore://symbols/functions"@ && u
        != "gcore://symbols/classes"@ && u != "gcore://symbols/variables"@ && u
        != "gcore://symbols/modules"@) by {
        assert(u[8] == 'r');
        assert("gcore://graph/repository"@[8] == 'g');
        assert("gcore://symbols/functions"@[8] == 's');
        assert("gcore://symbols/classes"@[8] == 's');
        assert("gcore://symbols/variables"@[8] == 's');
        assert("gcore://symbols/modules"@[8] == 's');
    }
    assert forall|i: int| 0 <= i < 9 implies #[trigger] route_of(fixed_resource_uris()[i]) is Ok
        && !(route_of(fixed_resource_uris()[i]) matches Ok(ResourceRoute::File(_))) by {
        if i < 4 {
            assert(fixed_resource_uris()[i].subrange(0, 19) =~= "gcore://repository/"@);
        } else if i == 4 {
            assert(fixed_resource_uris()[i].subrange(0, 14) =~= "gcore://graph/"@);
        } else {
            assert(fixed_resource_uris()[i].subrange(0, 16) =~= "gcore://symbols/"@);
        }
    }
}

// ------------------------------------------------------------ custom fields

/// A custom field written as `key=value`, with no `=` in the key, is read
/// back as that key and value.
pub proof fn law_key_val_roundtrip(k: Seq<char>, v: Seq<char>, k2: Seq<char>, v2: Seq<char>)
    requires
        no_eq(k),
    ensures
        !no_eq(k + seq!['='] + v),
        splits_at_first_eq(k + seq!['='] + v, k2, v2) <==> (k2 == k && v2 == v),
{
    let s = k + seq!['='] + v;
    assert(s[k.len() as int] == '=');
    assert(s.subrange(0, k.len() as int) =~= k);
    assert(s.subrange(k.len() as int + 1, s.len() as int) =~= v);
    if splits_at_first_eq(s, k2, v2) {
        let i = choose|i: int|
            #![trigger s[i]]
            0 <= i < s.len() && s[i] == '=' && no_eq(s.subrange(0, i)) && k2 == s.subrange(0, i)
                && v2 == s.subrange(i + 1, s.len() as int);
        if i < k.len() {
            assert(s[i] == k[i]);
        }
        if i > k.len() {
            assert(s.subrange(0, i)[k.len() as int] == '=');
        }
    }
    if k2 == k && v2 == v {
        assert(no_eq(s.subrange(0, k.len() as int)));
    }
}

/// A profile saved under a nonempty name is listed under that name: the
/// file its path names is one of the profiles the directory holds.
pub proof fn law_saved_profile_is_listed(entries: Seq<(String, bool)>, i: int, name: Seq<char>)
    requires
        name.len() > 0,
        0 <= i < entries.len(),
        entries[i].0@ == profile_file_name(name),
        entries[i].1,
    ensures
        profile_stems(entries).contains(name),
    decreases entries.len(),
{
    reveal_strlit(".yaml");
    let f = profile_file_name(name);
    assert(f.subrange(f.len() - 5, f.len() as int) =~= ".yaml"@);
    assert(f.subrange(0, f.len() - 5) =~= name);
    assert(profile_stem(f) == Some(name));
    let last = entries.len() - 1;
    if i == last {
        let rest = profile_stems(entries.drop_last());
        assert(profile_stems(entries) == rest.push(name));
        assert(profile_stems(entries)[rest.len() as int] == name);
    } else {
        law_saved_profile_is_listed(entries.drop_last(), i, name);
        let rest = profile_stems(entries.drop_last());
        let k = choose|k: int| 0 <= k < rest.len() && rest[k] == name;
        let (n, is_file) = entries.last();
        if profile_stem(n@) is Some && is_file {
            assert(profile_stems(entries) == rest.push(profile_stem(n@)->0));
            assert(profile_stems(entries)[k] == name);
        } else {
            assert(profile_stems(entries) == rest);
        }
    }
}

// ------------------------------------------------------------ error counts

/// The totals of some buckets, added up.
pub open spec fn total_count(r: Seq<BucketCount>) -> int
    decreases r.len(),
{
    if r.len() == 0 {
        0
    } else {
        total_count(r.drop_last()) + r.last().count
    }
}

/// How many events fall in one of the buckets listed.
spec fn count_in(evs: Seq<AnalyzedEvent>, bs: Seq<int>, hourly: bool) -> int
    decreases evs.len(),
{
    if evs.len() == 0 {
        0
    } else {
        count_in(evs.drop_last(), bs, hourly) + if bs.contains(
            bucket_of(evs.last().timestamp_ms, hourly),
        ) {
            1int
        } else {
            0int
        }
    }
}

/// The events of each bucket listed, added up.
spec fn sum_over(evs: Seq<AnalyzedEvent>, bs: Seq<int>, hourly: bool) -> int
    decreases bs.len(),
{
    if bs.len() == 0 {
        0
    } else {
        sum_over(evs, bs.drop_last(), hourly) + bucket_count(evs, bs.last(), hourly, None)
    }
}

proof fn lemma_count_in_push(evs: Seq<AnalyzedEvent>, bs: Seq<int>, b: int, hourly: bool)
    requires
        !bs.contains(b),
    ensures
        count_in(evs, bs.push(b), hourly) == count_in(evs, bs, hourly) + bucket_count(
            evs,
            b,
            hourly,
            None,
        ),
    decreases evs.len(),
{
    if evs.len() > 0 {
        lemma_count_in_push(evs.drop_last(), bs, b, hourly);
        let x = bucket_of(evs.last().timestamp_ms, hourly);
        assert(bs.push(b).contains(x) <==> bs.contains(x) || x == b) by {
            if bs.contains(x) {
                let i = choose|i: int| 0 <= i < bs.len() && bs[i] == x;
                assert(bs.push(b)[i] == x);
            }
            if x == b {
                assert(bs.push(b)[bs.len() as int] == x);
            }
            if bs.push(b).contains(x) {
                let i = choose|i: int| 0 <= i < bs.push(b).len() && bs.push(b)[i] == x;
                if i < bs.len() {
                    assert(bs[i] == x);
                }
            }
        }
    }
}

proof fn lemma_sum_is_count(evs: Seq<AnalyzedEvent>, bs: Seq<int>, hourly: bool)
    requires
        forall|i: int, j: int| 0 <= i < j < bs.len() ==> bs[i] != bs[j],
    ensures
        sum_over(evs, bs, hourly) == count_in(evs, bs, hourly),
    decreases bs.len(),
{
    if bs.len() == 0 {
        lemma_count_in_empty(evs, bs, hourly);
    } else {
        let init = bs.drop_last();
        lemma_sum_is_count(evs, init, hourly);
        assert(!init.contains(bs.last())) by {
            if init.contains(bs.last()) {
                let i = choose|i: int| 0 <= i < init.len() && init[i] == bs.last();
                assert(bs[i] == bs[bs.len() - 1]);
            }
        }
        lemma_count_in_push(evs, init, bs.last(), hourly);
        assert(init.push(bs.last()) =~= bs);
    }
}

proof fn lemma_count_in_empty(evs: Seq<AnalyzedEvent>, bs: Seq<int>, hourly: bool)
    requires
        bs.len() == 0,
    ensures
        count_in(evs, bs, hourly) == 0,
    decreases evs.len(),
{
    if evs.len() > 0 {
        lemma_count_in_empty(evs.drop_last(), bs, hourly);
    }
}

proof fn lemma_count_in_all(evs: Seq<AnalyzedEvent>, bs: Seq<int>, hourly: bool)
    requires
        forall|i: int| 0 <= i < evs.len() ==> bs.contains(bucket_of((#[trigger] evs[i]).timestamp_ms, hourly)),
    ensures
        count_in(evs, bs, hourly) == evs.len(),
    decreases evs.len(),
{
    if evs.len() > 0 {
        let init = evs.drop_last();
        assert forall|i: int| 0 <= i < init.len() implies bs.contains(
            bucket_of((#[trigger] init[i]).timestamp_ms, hourly),
        ) by {
            assert(init[i] == evs[i]);
        }
        lemma_count_in_all(init, bs, hourly);
        assert(bs.contains(bucket_of(evs[evs.len() - 1].timestamp_ms, hourly)));
    }
}

proof fn lemma_count_hit(evs: Seq<AnalyzedEvent>, i: int, hourly: bool)
    requires
        0 <= i < evs.len(),
    ensures
        bucket_count(evs, bucket_of(evs[i].timestamp_ms, hourly), hourly, None) >= 1,
    decreases evs.len(),
{
    if i < evs.len() - 1 {
        lemma_count_hit(evs.drop_last(), i, hourly);
        assert(evs.drop_last()[i] == evs[i]);
    }
}

proof fn lemma_total_is_sum(evs: Seq<AnalyzedEvent>, r: Seq<BucketCount>, hourly: bool)
    requires
        forall|a: int|
            0 <= a < r.len() ==> (#[trigger] r[a]).count == bucket_count(
                evs,
                r[a].bucket as int,
                hourly,
                None,
            ),
    ensures
        total_count(r) == sum_over(evs, r.map_values(|x: BucketCount| x.bucket as int), hourly),
    decreases r.len(),
{
    if r.len() > 0 {
        let init = r.drop_last();
        assert forall|a: int| 0 <= a < init.len() implies (#[trigger] init[a]).count
            == bucket_count(evs, init[a].bucket as int, hourly, None) by {
            assert(init[a] == r[a]);
        }
        lemma_total_is_sum(evs, init, hourly);
        let bs = r.map_values(|x: BucketCount| x.bucket as int);
        assert(bs.drop_last() =~= init.map_values(|x: BucketCount| x.bucket as int));
        assert(r.last() == r[r.len() - 1]);
    }
}

/// Every recorded error is counted in exactly one bucket: the totals of
/// the hourly (or daily) buckets add up to the number of errors recorded.
pub proof fn law_each_error_counted_once(
    evs: Seq<AnalyzedEvent>,
    hourly: bool,
    r: Seq<BucketCount>,
)
    requires
        buckets_of(evs, hourly, r),
    ensures
        total_count(r) == evs.len(),
{
    let bs = r.map_values(|x: BucketCount| x.bucket as int);
    assert forall|a: int|
        0 <= a < r.len() implies (#[trigger] r[a]).count == bucket_count(
            evs,
            r[a].bucket as int,
            hourly,
            None,
        ) by {
        assert(crate::buckets::bucket_exact(evs, hourly, r[a]));
    }
    lemma_total_is_sum(evs, r, hourly);
    assert forall|i: int, j: int| 0 <= i < j < bs.len() implies bs[i] != bs[j] by {
        assert(r[i].bucket < r[j].bucket);
    }
    lemma_sum_is_count(evs, bs, hourly);
    assert forall|i: int| 0 <= i < evs.len() implies bs.contains(
        bucket_of((#[trigger] evs[i]).timestamp_ms, hourly),
    ) by {
        let b = bucket_of(evs[i].timestamp_ms, hourly);
        lemma_count_hit(evs, i, hourly);
        let a = choose|a: int| 0 <= a < r.len() && (#[trigger] r[a]).bucket == b;
        assert(bs[a] == b);
    }
    lemma_count_in_all(evs, bs, hourly);
}

// ------------------------------------------------------------ error statistics

/// The counts of some entries, added up.
pub open spec fn entries_total(s: Seq<(String, u64)>) -> int
    decreases s.len(),
{
    if s.len() == 0 {
        0
    } else {
        entries_total(s.drop_last()) + s.last().1
    }
}

/// How many events fall under one of the categories listed.
spec fn events_in(evs: Seq<ErrorEvent>, cs: Seq<Seq<char>>) -> int
    decreases evs.len(),
{
    if evs.len() == 0 {
        0
    } else {
        events_in(evs.drop_last(), cs) + if cs.contains(error_category(evs.last().error)) {
            1int
        } else {
            0int
        }
    }
}

/// The events of each category listed, added up.
spec fn category_sum(evs: Seq<ErrorEvent>, cs: Seq<Seq<char>>) -> int
    decreases cs.len(),
{
    if cs.len() == 0 {
        0
    } else {
        category_sum(evs, cs.drop_last()) + category_count(evs, cs.last())
    }
}

proof fn lemma_events_in_push(evs: Seq<ErrorEvent>, cs: Seq<Seq<char>>, c: Seq<char>)
    requires
        !cs.contains(c),
    ensures
        events_in(evs, cs.push(c)) == events_in(evs, cs) + category_count(evs, c),
    decreases evs.len(),
{
    if evs.len() > 0 {
        lemma_events_in_push(evs.drop_last(), cs, c);
        let x = error_category(evs.last().error);
        assert(cs.push(c).contains(x) <==> cs.contains(x) || x == c) by {
            if cs.contains(x) {
                let i = choose|i: int| 0 <= i < cs.len() && cs[i] == x;
                assert(cs.push(c)[i] == x);
            }
            if x == c {
                assert(cs.push(c)[cs.len() as int] == x);
            }
            if cs.push(c).contains(x) {
                let i = choose|i: int| 0 <= i < cs.push(c).len() && cs.push(c)[i] == x;
                if i < cs.len() {
                    assert(cs[i] == x);
                }
            }
        }
    }
}

proof fn lemma_events_in_empty(evs: Seq<ErrorEvent>, cs: Seq<Seq<char>>)
    requires
        cs.len() == 0,
    ensures
        events_in(evs, cs) == 0,
    decreases evs.len(),
{
    if evs.len() > 0 {
        lemma_events_in_empty(evs.drop_last(), cs);
    }
}

proof fn lemma_category_sum(evs: Seq<ErrorEvent>, cs: Seq<Seq<char>>)
    requires
        forall|i: int, j: int| 0 <= i < j < cs.len() ==> cs[i] != cs[j],
    ensures
        category_sum(evs, cs) == events_in(evs, cs),
    decreases cs.len(),
{
    if cs.len() == 0 {
        lemma_events_in_empty(evs, cs);
    } else {
        let init = cs.drop_last();
        lemma_category_sum(evs, init);
        assert(!init.contains(cs.last())) by {
            if init.contains(cs.last()) {
                let i = choose|i: int| 0 <= i < init.len() && init[i] == cs.last();
                assert(cs[i] == cs[cs.len() - 1]);
            }
        }
        lemma_events_in_push(evs, init, cs.last());
        assert(init.push(cs.last()) =~= cs);
    }
}

proof fn lemma_events_in_all(evs: Seq<ErrorEvent>, cs: Seq<Seq<char>>)
    requires
        forall|i: int| 0 <= i < evs.len() ==> cs.contains(error_category((#[trigger] evs[i]).error)),
    ensures
        events_in(evs, cs) == evs.len(),
    decreases evs.len(),
{
    if evs.len() > 0 {
        let init = evs.drop_last();
        assert forall|i: int| 0 <= i < init.len() implies cs.contains(
            error_category((#[trigger] init[i]).error),
        ) by {
            assert(init[i] == evs[i]);
        }
        lemma_events_in_all(init, cs);
        assert(cs.contains(error_category(evs[evs.len() - 1].error)));
    }
}

proof fn lemma_category_hit(evs: Seq<ErrorEvent>, i: int)
    requires
        0 <= i < evs.len(),
    ensures
        category_count(evs, error_category(evs[i].error)) >= 1,
    decreases evs.len(),
{
    if i < evs.len() - 1 {
        lemma_category_hit(evs.drop_last(), i);
        assert(evs.drop_last()[i] == evs[i]);
    }
}

proof fn lemma_entry_count(n: NamedCounts, i: int)
    requires
        n.wf(),
        0 <= i < n.entries().len(),
    ensures
        n.count(entry_name(n.entries()[i])) == n.entries()[i].1,
{
    let k = entry_name(n.entries()[i]);
    assert(n.has(k));
    let j = choose|j: int| 0 <= j < n.entries().len() && entry_name(#[trigger] n.entries()[j]) == k;
    if j < i {
        assert(entry_name(n.entries()[j]) != entry_name(n.entries()[i]));
    } else if i < j {
        assert(entry_name(n.entries()[i]) != entry_name(n.entries()[j]));
    }
}

proof fn lemma_entries_total(evs: Seq<ErrorEvent>, s: Seq<(String, u64)>)
    requires
        forall|i: int| 0 <= i < s.len() ==> (#[trigger] s[i]).1 == category_count(evs, s[i].0@),
    ensures
        entries_total(s) == category_sum(evs, s.map_values(|e: (String, u64)| e.0@)),
    decreases s.len(),
{
    if s.len() > 0 {
        let init = s.drop_last();
        assert forall|i: int| 0 <= i < init.len() implies (#[trigger] init[i]).1 == category_count(
            evs,
            init[i].0@,
        ) by {
            assert(init[i] == s[i]);
        }
        lemma_entries_total(evs, init);
        let cs = s.map_values(|e: (String, u64)| e.0@);
        assert(cs.drop_last() =~= init.map_values(|e: (String, u64)| e.0@));
        assert(s.last() == s[s.len() - 1]);
    }
}

/// An error collector counts each recorded error under exactly one
/// category: the counts of the categories add up to the total, which is
/// the number of errors recorded.
pub proof fn law_each_error_in_one_category(c: ErrorCollector)
    requires
        c.wf(),
    ensures
        entries_total(c.statistics().errors_by_category.entries()) == c.statistics().total_errors,
        c.statistics().total_errors == c.events().len(),
{
    let n = c.statistics().errors_by_category;
    let s = n.entries();
    let evs = c.events();
    assert forall|i: int| 0 <= i < s.len() implies (#[trigger] s[i]).1 == category_count(
        evs,
        s[i].0@,
    ) by {
        lemma_entry_count(n, i);
    }
    lemma_entries_total(evs, s);
    let cs = s.map_values(|e: (String, u64)| e.0@);
    assert forall|i: int, j: int| 0 <= i < j < cs.len() implies cs[i] != cs[j] by {
        assert(entry_name(s[i]) != entry_name(s[j]));
    }
    lemma_category_sum(evs, cs);
    assert forall|i: int| 0 <= i < evs.len() implies cs.contains(
        error_category((#[trigger] evs[i]).error),
    ) by {
        let k = error_category(evs[i].error);
        lemma_category_hit(evs, i);
        assert(n.count(k) >= 1);
        assert(n.has(k));
        let a = choose|a: int| 0 <= a < s.len() && entry_name(#[trigger] s[a]) == k;
        assert(cs[a] == k);
    }
    lemma_events_in_all(evs, cs);
}

// ------------------------------------------------------------ test progress

/// Every finished test is counted exactly once by a progress tracker: its
/// status makes it passed, failed or skipped, and only one of them.
pub proof fn law_each_result_counted_once(status: crate::executor::TestStatus)
    ensures
        (if status == crate::executor::TestStatus::Passed {
            1int
        } else {
            0int
        }) + (if crate::executor::is_failure(status) {
            1int
        } else {
            0int
        }) + (if status == crate::executor::TestStatus::Skipped {
            1int
        } else {
            0int
        }) == 1,
{
}

// ------------------------------------------------------------ validation reports

proof fn lemma_failures_filter(rs: Seq<(String, ValidationResult)>)
    ensures
        failures(rs) == rs.filter(|x: (String, ValidationResult)| !x.1.is_valid).len(),
        failures(rs) <= rs.len(),
        (failures(rs) == 0) == all_valid(rs),
    decreases rs.len(),
{
    let p = |x: (String, ValidationResult)| !x.1.is_valid;
    if rs.len() == 0 {
        reveal(Seq::filter);
        assert(rs.filter(p) =~= Seq::<(String, ValidationResult)>::empty());
    } else {
        let init = rs.drop_last();
        lemma_failures_filter(init);
        assert(init.push(rs.last()) =~= rs);
        init.lemma_filter_push(rs.last(), p);
        if rs.last().1.is_valid {
            assert(all_valid(rs) == all_valid(init)) by {
                if all_valid(init) {
                    assert forall|i: int| 0 <= i < rs.len() implies (#[trigger] rs[i]).1.is_valid by {
                        if i < rs.len() - 1 {
                            assert(rs[i] == init[i]);
                        }
                    }
                }
                if all_valid(rs) {
                    assert forall|i: int| 0 <= i < init.len() implies (#[trigger] init[i]).1.is_valid by {
                        assert(rs[i] == init[i]);
                    }
                }
            }
        } else {
            assert(!rs[rs.len() - 1].1.is_valid);
        }
    }
}

/// The failures counted by a JUnit validation report are the invalid
/// categories: their number is that of the categories whose result is not
/// valid, so it is never more than the number of tests, it equals it when
/// every category is invalid, and it is zero exactly when every category is
/// valid.
pub proof fn law_junit_failures_are_invalid_categories(rs: Seq<(String, ValidationResult)>)
    ensures
        failures(rs) == rs.filter(|x: (String, ValidationResult)| !x.1.is_valid).len(),
        failures(rs) <= rs.len(),
        (failures(rs) == 0) <==> all_valid(rs),
        (forall|i: int| 0 <= i < rs.len() ==> !(#[trigger] rs[i]).1.is_valid) ==> failures(rs)
            == rs.len(),
{
    lemma_failures_filter(rs);
    let p = |x: (String, ValidationResult)| !x.1.is_valid;
    if forall|i: int| 0 <= i < rs.len() ==> !(#[trigger] rs[i]).1.is_valid {
        reveal(Seq::filter);
        assert(rs.filter(p) =~= rs) by {
            lemma_filter_all(rs, p);
        }
    }
}

proof fn lemma_filter_all<A>(s: Seq<A>, p: spec_fn(A) -> bool)
    requires
        forall|i: int| 0 <= i < s.len() ==> p(#[trigger] s[i]),
    ensures
        s.filter(p) == s,
    decreases s.len(),
{
    if s.len() > 0 {
        let init = s.drop_last();
        assert forall|i: int| 0 <= i < init.len() implies p(#[trigger] init[i]) by {
            assert(init[i] == s[i]);
        }
        lemma_filter_all(init, p);
        assert(init.push(s.last()) =~= s);
        init.lemma_filter_push(s.last(), p);
        assert(p(s[s.len() - 1]));
    } else {
        reveal(Seq::filter);
        assert(s.filter(p) =~= s);
    }
}

// ------------------------------------------------------------ retries

/// The retry policy follows the error's category: an error has a policy
/// exactly when it is retryable, the connection policy goes to the
/// retryable errors of the connection category and to no other, and every
/// other retryable error (network, I/O, performance) gets the request
/// policy.
pub proof fn law_retry_policy_follows_category(e: TestHarnessError)
    ensures
        retry_policy(e) is Some <==> retryable(e),
        retry_policy(e) == Some(RetryPolicy::Connection) <==> (retryable(e) && category(e)
            == ErrorCategory::Connection),
        retry_policy(e) == Some(RetryPolicy::Request) <==> (retryable(e) && category(e)
            != ErrorCategory::Connection),
{
}

// ------------------------------------------------------------ names in tool arguments

/// The lowered name of an edge kind: its length, and its first two letters
/// in lower case.
spec fn lower_kind_sig(k: EdgeKind) -> (char, char, nat) {
    match k {
        EdgeKind::Calls => ('c', 'a', 5),
        EdgeKind::Reads => ('r', 'e', 5),
        EdgeKind::Writes => ('w', 'r', 6),
        EdgeKind::Imports => ('i', 'm', 7),
        EdgeKind::Emits => ('e', 'm', 5),
        EdgeKind::RoutesTo => ('r', 'o', 8),
        EdgeKind::Raises => ('r', 'a', 6),
        EdgeKind::Extends => ('e', 'x', 7),
        EdgeKind::Implements => ('i', 'm', 10),
    }
}

proof fn lemma_lower_kind_sig(k: EdgeKind)
    ensures
        ascii_lower(k.name()).len() == lower_kind_sig(k).2,
        ascii_lower(k.name())[0] == lower_kind_sig(k).0,
        ascii_lower(k.name())[1] == lower_kind_sig(k).1,
{
    lemma_kind_sig(k);
    let n = k.name();
    assert(ascii_lower(n)[0] == (if 'A' <= n[0] <= 'Z' { ((n[0] as u32) + 32) as char } else { n[0] }));
    assert(ascii_lower(n)[1] == (if 'A' <= n[1] <= 'Z' { ((n[1] as u32) + 32) as char } else { n[1] }));
}

/// The name of each kind, in lower case, as a text.
proof fn lemma_lower_kind_name(k: EdgeKind)
    ensures
        k == EdgeKind::Calls ==> ascii_lower(k.name()) == "calls"@,
        k == EdgeKind::Imports ==> ascii_lower(k.name()) == "imports"@,
        k == EdgeKind::Reads ==> ascii_lower(k.name()) == "reads"@,
        k == EdgeKind::Writes ==> ascii_lower(k.name()) == "writes"@,
{
    match k {
        EdgeKind::Calls => {
            reveal_strlit("Calls");
            reveal_strlit("calls");
            assert(ascii_lower(k.name()) =~= "calls"@);
        },
        EdgeKind::Imports => {
            reveal_strlit("Imports");
            reveal_strlit("imports");
            assert(ascii_lower(k.name()) =~= "imports"@);
        },
        EdgeKind::Reads => {
            reveal_strlit("Reads");
            reveal_strlit("reads");
            assert(ascii_lower(k.name()) =~= "reads"@);
        },
        EdgeKind::Writes => {
            reveal_strlit("Writes");
            reveal_strlit("writes");
            assert(ascii_lower(k.name()) =~= "writes"@);
        },
        _ => {},
    }
}

/// A dependency type keeps the edges that its name names: `direct` keeps
/// every edge, and any other name that parses keeps exactly the edges whose
/// kind, written in lower case, is that name (`imports` keeps the imports,
/// `calls` the calls).
pub proof fn law_dependency_type_keeps_named_kind(s: Seq<char>, k: EdgeKind)
    requires
        dependency_type_of(s) is Some,
    ensures
        s == "direct"@ ==> dependency_includes(dependency_type_of(s)->0, k),
        s != "direct"@ ==> (dependency_includes(dependency_type_of(s)->0, k) <==> ascii_lower(
            k.name(),
        ) == s),
{
    if s != "direct"@ {
        lemma_lower_kind_sig(k);
        lemma_lower_kind_name(k);
        reveal_strlit("calls");
        reveal_strlit("imports");
        reveal_strlit("reads");
        reveal_strlit("writes");
        let l = ascii_lower(k.name());
        if l == s {
            assert(l.len() == s.len() && l[0] == s[0] && l[1] == s[1]);
        }
    }
}

proof fn lemma_name_sigs()
    ensures
        word_sig("direct"@) == (6nat, 'd', 'i'),
        word_sig("calls"@) == (5nat, 'c', 'a'),
        word_sig("imports"@) == (7nat, 'i', 'm'),
        word_sig("reads"@) == (5nat, 'r', 'e'),
        word_sig("writes"@) == (6nat, 'w', 'r'),
        word_sig("function"@) == (8nat, 'f', 'u'),
        word_sig("class"@) == (5nat, 'c', 'l'),
        word_sig("variable"@) == (8nat, 'v', 'a'),
        word_sig("module"@) == (6nat, 'm', 'o'),
        word_sig("method"@) == (6nat, 'm', 'e'),
{
    reveal_strlit("direct");
    reveal_strlit("calls");
    reveal_strlit("imports");
    reveal_strlit("reads");
    reveal_strlit("writes");
    reveal_strlit("function");
    reveal_strlit("class");
    reveal_strlit("variable");
    reveal_strlit("module");
    reveal_strlit("method");
}

/// Each searchable kind is found by its own name in lower case: `method`
/// selects the methods, `function` the functions, and so on.
pub proof fn law_symbol_kind_found_by_its_name(k: NodeKind)
    requires
        k == NodeKind::Function || k == NodeKind::Class || k == NodeKind::Variable || k
            == NodeKind::Module || k == NodeKind::Method,
    ensures
        symbol_kind_of(ascii_lower(k.name())) == Some(k),
{
    lemma_name_sigs();
    match k {
        NodeKind::Function => {
            reveal_strlit("Function");
            reveal_strlit("function");
            assert(ascii_lower(k.name()) =~= "function"@);
        },
        NodeKind::Class => {
            reveal_strlit("Class");
            reveal_strlit("class");
            assert(ascii_lower(k.name()) =~= "class"@);
        },
        NodeKind::Variable => {
            reveal_strlit("Variable");
            reveal_strlit("variable");
            assert(ascii_lower(k.name()) =~= "variable"@);
        },
        NodeKind::Module => {
            reveal_strlit("Module");
            reveal_strlit("module");
            assert(ascii_lower(k.name()) =~= "module"@);
        },
        NodeKind::Method => {
            reveal_strlit("Method");
            reveal_strlit("method");
            assert(ascii_lower(k.name()) =~= "method"@);
        },
        _ => {},
    }
}

/// `direct` and the lower-case name of each kind of dependency edge (calls,
/// imports, reads, writes) are accepted as dependency types, and `direct`
/// keeps every edge.
pub proof fn law_dependency_names_accepted(k: EdgeKind)
    requires
        k == EdgeKind::Calls || k == EdgeKind::Imports || k == EdgeKind::Reads || k
            == EdgeKind::Writes,
    ensures
        dependency_type_of(ascii_lower(k.name())) is Some,
        dependency_type_of("direct"@) == Some(DependencyType::Direct),
{
    lemma_name_sigs();
    lemma_lower_kind_name(k);
}

/// The symbol kinds named in a search: the name of a kind that parses is
/// the kind's own name in lower case (`method` gives the methods,
/// `function` the functions).
pub proof fn law_symbol_kind_is_named_kind(s: Seq<char>)
    requires
        symbol_kind_of(s) is Some,
    ensures
        ascii_lower(symbol_kind_of(s)->0.name()) == s,
{
    let k = symbol_kind_of(s)->0;
    match k {
        NodeKind::Function => {
            reveal_strlit("Function");
            reveal_strlit("function");
            assert(ascii_lower(k.name()) =~= "function"@);
        },
        NodeKind::Class => {
            reveal_strlit("Class");
            reveal_strlit("class");
            assert(ascii_lower(k.name()) =~= "class"@);
        },
        NodeKind::Variable => {
            reveal_strlit("Variable");
            reveal_strlit("variable");
            assert(ascii_lower(k.name()) =~= "variable"@);
        },
        NodeKind::Module => {
            reveal_strlit("Module");
            reveal_strlit("module");
            assert(ascii_lower(k.name()) =~= "module"@);
        },
        NodeKind::Method => {
            reveal_strlit("Method");
            reveal_strlit("method");
            assert(ascii_lower(k.name()) =~= "method"@);
        },
        _ => {},
    }
}

// ------------------------------------------------------------ MIME types

/// The file extensions that are given a MIME type of their own.
pub open spec fn known_extension(e: Seq<char>) -> bool {
    ||| e == "js"@
    ||| e == "ts"@
    ||| e == "py"@
    ||| e == "java"@
    ||| e == "json"@
    ||| e == "md"@
    ||| e == "txt"@
    ||| e == "html"@
    ||| e == "css"@
    ||| e == "xml"@
    ||| e == "yaml"@
    ||| e == "yml"@
    ||| e == "toml"@
}

/// The length and the first two letters of a word, which tell apart the
/// words that name extensions, symbol kinds and dependency types.
spec fn word_sig(e: Seq<char>) -> (nat, char, char) {
    (e.len(), e[0], e[1])
}

/// The length and two letters of a MIME type, which tell the MIME types of
/// the known extensions apart.
spec fn mime_sig(m: Seq<char>) -> (nat, char, char) {
    (m.len(), m[5], m[if m.len() > 12 { 12 } else { m.len() - 1 }])
}

proof fn lemma_literal_sigs()
    ensures
        word_sig("js"@) == (2nat, 'j', 's'),
        word_sig("ts"@) == (2nat, 't', 's'),
        word_sig("py"@) == (2nat, 'p', 'y'),
        word_sig("java"@) == (4nat, 'j', 'a'),
        word_sig("json"@) == (4nat, 'j', 's'),
        word_sig("md"@) == (2nat, 'm', 'd'),
        word_sig("txt"@) == (3nat, 't', 'x'),
        word_sig("html"@) == (4nat, 'h', 't'),
        word_sig("css"@) == (3nat, 'c', 's'),
        word_sig("xml"@) == (3nat, 'x', 'm'),
        word_sig("yaml"@) == (4nat, 'y', 'a'),
        word_sig("yml"@) == (3nat, 'y', 'm'),
        word_sig("toml"@) == (4nat, 't', 'o'),
        mime_sig("application/javascript"@) == (22nat, 'c', 'j'),
        mime_sig("application/typescript"@) == (22nat, 'c', 't'),
        mime_sig("text/x-python"@) == (13nat, 'x', 'n'),
        mime_sig("text/x-java-source"@) == (18nat, 'x', 's'),
        mime_sig("application/json"@) == (16nat, 'c', 'j'),
        mime_sig("text/markdown"@) == (13nat, 'm', 'n'),
        mime_sig("text/plain"@) == (10nat, 'p', 'n'),
        mime_sig("text/html"@) == (9nat, 'h', 'l'),
        mime_sig("text/css"@) == (8nat, 'c', 's'),
        mime_sig("application/xml"@) == (15nat, 'c', 'x'),
        mime_sig("application/yaml"@) == (16nat, 'c', 'y'),
        mime_sig("application/toml"@) == (16nat, 'c', 't'),
{
    reveal_strlit("js");
    reveal_strlit("ts");
    reveal_strlit("py");
    reveal_strlit("java");
    reveal_strlit("json");
    reveal_strlit("md");
    reveal_strlit("txt");
    reveal_strlit("html");
    reveal_strlit("css");
    reveal_strlit("xml");
    reveal_strlit("yaml");
    reveal_strlit("yml");
    reveal_strlit("toml");
    reveal_strlit("application/javascript");
    reveal_strlit("application/typescript");
    reveal_strlit("text/x-python");
    reveal_strlit("text/x-java-source");
    reveal_strlit("application/json");
    reveal_strlit("text/markdown");
    reveal_strlit("text/plain");
    reveal_strlit("text/html");
    reveal_strlit("text/css");
    reveal_strlit("application/xml");
    reveal_strlit("application/yaml");
    reveal_strlit("application/toml");
}

/// Two known extensions that share a MIME type are the same extension, or
/// the two spellings of YAML: a `.ts` file is never taken for a `.js` file,
/// and among them only `.txt` is plain text.
pub proof fn law_mime_types_tell_extensions_apart(e1: Seq<char>, e2: Seq<char>)
    requires
        known_extension(e1),
        known_extension(e2),
    ensures
        mime_for(Some(e1)) == mime_for(Some(e2)) ==> e1 == e2 || (
        (e1 == "yaml"@ || e1 == "yml"@) && (e2 == "yaml"@ || e2 == "yml"@)),
        mime_for(Some(e1)) == "text/plain"@ ==> e1 == "txt"@,
        mime_for(Some("ts"@)) == "application/typescript"@,
{
    lemma_literal_sigs();
}

} // verus!
