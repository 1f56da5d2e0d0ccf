//! The reconciliation core: a pure, deterministic function from the desired
//! hostnames, the records observed at the provider, and the current public IP
//! address to the plan of creations and updates that converges them.

use vstd::prelude::*;
use vstd::string::StringExecFns;
use crate::cloudflare::a_record_view;
use crate::cloudflare::Record;
use crate::cloudflare::RecordView;

verus! {

/// The models of a sequence of records.
pub open spec fn record_views(rs: Seq<Record>) -> Seq<RecordView> {
    rs.map_values(|r: Record| r@)
}

/// The character sequences of a sequence of strings.
pub open spec fn name_views(ns: Seq<String>) -> Seq<Seq<char>> {
    ns.map_values(|n: String| n@)
}

/// Whether some observed record carries the name `n`, regardless of its kind
/// or content.
pub open spec fn has_name(observed: Seq<RecordView>, n: Seq<char>) -> bool {
    exists|i: int| 0 <= i < observed.len() && observed[i].name == n
}

/// Whether an observed record must be rewritten: it is an address record,
/// its name is desired, and its content is not the current address.
pub open spec fn update_candidate(
    r: RecordView,
    desired: Seq<Seq<char>>,
    ip: Seq<char>,
) -> bool {
    r.kind == "A"@ && desired.contains(r.name) && r.content != ip
}

/// The record as the update submits it: content replaced by the current
/// address, identifier and every other field unchanged.
pub open spec fn with_ip(r: RecordView, ip: Seq<char>) -> RecordView {
    RecordView { content: ip, ..r }
}

/// The records to update: the update candidates of `observed`, in observed
/// order, each with its content replaced by `ip`.
pub open spec fn update_plan(
    observed: Seq<RecordView>,
    desired: Seq<Seq<char>>,
    ip: Seq<char>,
) -> Seq<RecordView> {
    observed.filter(|r: RecordView| update_candidate(r, desired, ip)).map_values(
        |r: RecordView| with_ip(r, ip),
    )
}

/// The names to create: the desired names that no observed record carries, in
/// desired order. A record of any kind blocks creation of its name — a
/// same-named record of another kind means the name is already taken, so the
/// plan leaves it alone.
pub open spec fn create_plan(
    desired: Seq<Seq<char>>,
    observed: Seq<RecordView>,
) -> Seq<Seq<char>> {
    desired.filter(|n: Seq<char>| !has_name(observed, n))
}

/// Whether `names` contains a string equal to `target`, character for
/// character.
fn contains_name(names: &Vec<String>, target: &String) -> (b: bool)
    ensures
        b == name_views(names@).contains(target@),
{
    let mut i: usize = 0;
    while i < names.len()
        invariant
            i <= names.len(),
            forall|j: int| 0 <= j < i ==> names@[j]@ != target@,
        decreases names.len() - i,
    {
        if names[i].eq(target) {
            assert(name_views(names@)[i as int] == target@);
            return true;
        }
        i += 1;
    }
    assert(forall|j: int|
        0 <= j < names@.len() ==> name_views(names@)[j] == names@[j]@);
    false
}

/// Whether some record of `observed` carries the name `target`.
fn observed_has_name(observed: &Vec<Record>, target: &String) -> (b: bool)
    ensures
        b == has_name(record_views(observed@), target@),
{
    let mut i: usize = 0;
    while i < observed.len()
        invariant
            i <= observed.len(),
            forall|j: int| 0 <= j < i ==> observed@[j]@.name != target@,
        decreases observed.len() - i,
    {
        if observed[i].name.eq(target) {
            assert(record_views(observed@)[i as int].name == target@);
            return true;
        }
        i += 1;
    }
    assert(forall|j: int|
        0 <= j < observed@.len() ==> record_views(observed@)[j] == observed@[j]@);
    false
}

/// A sequence filtered by a predicate no element satisfies is empty.
proof fn lemma_filter_empty<A>(s: Seq<A>, pred: spec_fn(A) -> bool)
    requires
        forall|i: int| 0 <= i < s.len() ==> !pred(s[i]),
    ensures
        s.filter(pred).len() == 0,
{
    let f = s.filter(pred);
    if f.len() > 0 {
        s.lemma_filter_pred(pred, 0);
        assert(f.contains(f[0]));
        s.lemma_filter_contains_rev(pred, f[0]);
        let i = choose|i: int| 0 <= i < s.len() && s[i] == f[0];
        assert(pred(s[i]));
    }
}

/// A desired name is created exactly when no observed record carries it,
/// whatever that record's kind or content.
pub proof fn lemma_create_iff_absent(
    desired: Seq<Seq<char>>,
    observed: Seq<RecordView>,
    n: Seq<char>,
)
    ensures
        create_plan(desired, observed).contains(n) <==> desired.contains(n) && !has_name(
            observed,
            n,
        ),
{
    let pred = |m: Seq<char>| !has_name(observed, m);
    let cp = create_plan(desired, observed);
    if cp.contains(n) {
        let i = choose|i: int| 0 <= i < cp.len() && cp[i] == n;
        desired.lemma_filter_pred(pred, i);
        desired.lemma_filter_contains_rev(pred, n);
    }
    if desired.contains(n) && !has_name(observed, n) {
        let i = choose|i: int| 0 <= i < desired.len() && desired[i] == n;
        desired.lemma_filter_contains(pred, i);
    }
}

/// Whether `r` is some update candidate of `observed` rewritten to carry
/// `ip`: its identifier, kind and name are a candidate's, its content is the
/// current address.
pub open spec fn rewritten_candidate(
    observed: Seq<RecordView>,
    desired: Seq<Seq<char>>,
    ip: Seq<char>,
    r: RecordView,
) -> bool {
    exists|j: int|
        0 <= j < observed.len() && update_candidate(#[trigger] observed[j], desired, ip) && r
            == with_ip(observed[j], ip)
}

/// The update plan holds exactly the rewritten update candidates: every
/// entry is some candidate of `observed` with its content set to `ip` and
/// its identifier, kind and name unchanged, and every candidate appears.
pub proof fn lemma_update_characterization(
    observed: Seq<RecordView>,
    desired: Seq<Seq<char>>,
    ip: Seq<char>,
)
    ensures
        forall|k: int|
            0 <= k < update_plan(observed, desired, ip).len() ==> rewritten_candidate(
                observed,
                desired,
                ip,
                #[trigger] update_plan(observed, desired, ip)[k],
            ),
        forall|k: int|
            0 <= k < update_plan(observed, desired, ip).len() ==> (#[trigger] update_plan(
                observed,
                desired,
                ip,
            )[k]).content == ip,
        forall|j: int|
            0 <= j < observed.len() && update_candidate(#[trigger] observed[j], desired, ip)
                ==> update_plan(observed, desired, ip).contains(with_ip(observed[j], ip)),
{
    let pred = |r: RecordView| update_candidate(r, desired, ip);
    let f = observed.filter(pred);
    let up = update_plan(observed, desired, ip);
    assert forall|k: int| 0 <= k < up.len() implies rewritten_candidate(
        observed,
        desired,
        ip,
        #[trigger] update_plan(observed, desired, ip)[k],
    ) by {
        observed.lemma_filter_pred(pred, k);
        assert(f.contains(f[k]));
        observed.lemma_filter_contains_rev(pred, f[k]);
        let j0 = choose|j: int| 0 <= j < observed.len() && observed[j] == f[k];
        assert(update_candidate(observed[j0], desired, ip) && up[k] == with_ip(
            observed[j0],
            ip,
        ));
    }
    assert forall|j: int|
        0 <= j < observed.len() && update_candidate(#[trigger] observed[j], desired, ip) implies up
        .contains(with_ip(observed[j], ip)) by {
        observed.lemma_filter_contains(pred, j);
        let m = choose|m: int| 0 <= m < f.len() && f[m] == observed[j];
        assert(up[m] == with_ip(observed[j], ip));
        assert(up.contains(up[m]));
    }
}

/// A plan never references one name on both sides: a created name is absent
/// from the observed records, while every updated record carries an observed
/// name.
pub proof fn lemma_plan_disjoint(
    desired: Seq<Seq<char>>,
    observed: Seq<RecordView>,
    ip: Seq<char>,
    n: Seq<char>,
)
    requires
        create_plan(desired, observed).contains(n),
    ensures
        forall|k: int|
            0 <= k < update_plan(observed, desired, ip).len() ==> (#[trigger] update_plan(
                observed,
                desired,
                ip,
            )[k]).name != n,
{
    lemma_create_iff_absent(desired, observed, n);
    lemma_update_characterization(observed, desired, ip);
    let up = update_plan(observed, desired, ip);
    assert forall|k: int| 0 <= k < up.len() implies (#[trigger] up[k]).name != n by {
        assert(rewritten_candidate(observed, desired, ip, up[k]));
        let j = choose|j: int|
            0 <= j < observed.len() && update_candidate(#[trigger] observed[j], desired, ip)
                && up[k] == with_ip(observed[j], ip);
        assert(up[k].name == observed[j].name);
        if up[k].name == n {
            assert(has_name(observed, n));
        }
    }
}

/// The observed state after one cycle's plan has been applied: every update
/// candidate carries the new content, and each created name stands as a
/// fresh address record, appended in plan order.
pub open spec fn apply_plan(
    observed: Seq<RecordView>,
    desired: Seq<Seq<char>>,
    ip: Seq<char>,
) -> Seq<RecordView> {
    observed.map_values(
        |r: RecordView|
            if update_candidate(r, desired, ip) {
                with_ip(r, ip)
            } else {
                r
            },
    ) + create_plan(desired, observed).map_values(|n: Seq<char>| a_record_view(n, ip))
}

/// Reconciliation reaches a fixed point after one application: a cycle that
/// observes the state left by the previous cycle's plan computes an empty
/// plan.
pub proof fn lemma_reconcile_idempotent(
    desired: Seq<Seq<char>>,
    observed: Seq<RecordView>,
    ip: Seq<char>,
)
    ensures
        create_plan(desired, apply_plan(observed, desired, ip)).len() == 0,
        update_plan(apply_plan(observed, desired, ip), desired, ip).len() == 0,
{
    let applied = apply_plan(observed, desired, ip);
    let base = observed.map_values(
        |r: RecordView|
            if update_candidate(r, desired, ip) {
                with_ip(r, ip)
            } else {
                r
            },
    );
    let created = create_plan(desired, observed).map_values(|n: Seq<char>| a_record_view(n, ip));

    assert forall|i: int| 0 <= i < applied.len() implies !update_candidate(
        #[trigger] applied[i],
        desired,
        ip,
    ) by {
        if i < base.len() {
            let r = observed[i];
            assert(applied[i] == base[i]);
            if update_candidate(r, desired, ip) {
                assert(applied[i] == with_ip(r, ip));
            } else {
                assert(applied[i] == r);
            }
        } else {
            let k = i - base.len();
            assert(applied[i] == created[k]);
            assert(applied[i].content == ip);
        }
    }
    lemma_filter_empty(applied, |r: RecordView| update_candidate(r, desired, ip));
    assert(update_plan(applied, desired, ip).len() == 0);

    assert forall|i: int| 0 <= i < desired.len() implies has_name(
        applied,
        #[trigger] desired[i],
    ) by {
        let n = desired[i];
        if has_name(observed, n) {
            let j = choose|j: int| 0 <= j < observed.len() && observed[j].name == n;
            assert(applied[j] == base[j]);
            assert(base[j].name == n);
            assert(has_name(applied, n));
        } else {
            lemma_create_iff_absent(desired, observed, n);
            assert(desired.contains(n));
            let cp = create_plan(desired, observed);
            let k = choose|k: int| 0 <= k < cp.len() && cp[k] == n;
            assert(applied[base.len() + k] == created[k]);
            assert(created[k].name == n);
            assert(has_name(applied, n));
        }
    }
    lemma_filter_empty(desired, |n: Seq<char>| !has_name(applied, n));
}

/// One cycle's output: the desired names to create, then the observed
/// records to rewrite, each already carrying the new content. The plan lives
/// for one cycle only; the next cycle recomputes everything from freshly
/// fetched state.
pub struct Plan {
    pub to_create: Vec<String>,
    pub to_update: Vec<Record>,
}

/// Computes the plan that converges the observed records towards the desired
/// names at the current address: exactly the update candidates are rewritten
/// to `current_ip`, in observed order, and exactly the desired names absent
/// from the observed records are created, in desired order.
pub fn reconcile(desired: &Vec<String>, observed: &Vec<Record>, current_ip: &String) -> (p: Plan)
    ensures
        record_views(p.to_update@) == update_plan(
            record_views(observed@),
            name_views(desired@),
            current_ip@,
        ),
        name_views(p.to_create@) == create_plan(name_views(desired@), record_views(observed@)),
{
    let ghost obs = record_views(observed@);
    let ghost des = name_views(desired@);
    let ghost ip = current_ip@;
    let a_kind: String = String::from_str("A");

    let mut to_update: Vec<Record> = Vec::new();
    let mut i: usize = 0;
    while i < observed.len()
        invariant
            i <= observed.len(),
            obs == record_views(observed@),
            des == name_views(desired@),
            ip == current_ip@,
            a_kind@ == "A"@,
            record_views(to_update@) == update_plan(obs.take(i as int), des, ip),
        decreases observed.len() - i,
    {
        let r = &observed[i];
        let is_candidate = r.kind.eq(&a_kind) && contains_name(desired, &r.name) && !r.content.eq(
            current_ip,
        );
        proof {
            assert(obs[i as int] == observed@[i as int]@);
            assert(is_candidate == update_candidate(obs[i as int], des, ip));
            assert(obs.take(i + 1) =~= obs.take(i as int).push(obs[i as int]));
            obs.take(i as int).lemma_filter_push(
                obs[i as int],
                |r: RecordView| update_candidate(r, des, ip),
            );
        }
        if is_candidate {
            let updated = Record {
                id: match &r.id {
                    Some(s) => Some(s.clone()),
                    None => None,
                },
                kind: r.kind.clone(),
                name: r.name.clone(),
                content: current_ip.clone(),
                ttl: r.ttl,
                proxied: r.proxied,
            };
            proof {
                assert(updated@ =~= with_ip(obs[i as int], ip));
            }
            let ghost prev = to_update@;
            to_update.push(updated);
            proof {
                let pred = |r: RecordView| update_candidate(r, des, ip);
                let old_plan = update_plan(obs.take(i as int), des, ip);
                let new_plan = update_plan(obs.take(i + 1), des, ip);
                assert(obs.take(i + 1).filter(pred) == obs.take(i as int).filter(pred).push(
                    obs[i as int],
                ));
                assert(new_plan.len() == old_plan.len() + 1);
                assert forall|k: int| 0 <= k < new_plan.len() implies record_views(to_update@)[k]
                    == new_plan[k] by {
                    if k < old_plan.len() {
                        assert(record_views(prev)[k] == old_plan[k]);
                        assert(to_update@[k] == prev[k]);
                    } else {
                        assert(obs.take(i + 1).filter(pred)[k] == obs[i as int]);
                        assert(to_update@[k] == updated);
                    }
                }
                assert(record_views(to_update@) =~= new_plan);
            }
        } else {
            proof {
                assert(record_views(to_update@) =~= update_plan(obs.take(i + 1), des, ip));
            }
        }
        i += 1;
    }
    proof {
        assert(obs.take(observed@.len() as int) =~= obs);
    }

    let mut to_create: Vec<String> = Vec::new();
    let mut j: usize = 0;
    while j < desired.len()
        invariant
            j <= desired.len(),
            obs == record_views(observed@),
            des == name_views(desired@),
            ip == current_ip@,
            name_views(to_create@) == create_plan(des.take(j as int), obs),
        decreases desired.len() - j,
    {
        let name = &desired[j];
        let absent = !observed_has_name(observed, name);
        proof {
            assert(des[j as int] == desired@[j as int]@);
            assert(absent == !has_name(obs, des[j as int]));
            assert(des.take(j + 1) =~= des.take(j as int).push(des[j as int]));
            des.take(j as int).lemma_filter_push(
                des[j as int],
                |n: Seq<char>| !has_name(obs, n),
            );
        }
        if absent {
            to_create.push(name.clone());
            proof {
                assert(name_views(to_create@) =~= create_plan(des.take(j + 1), obs));
            }
        } else {
            proof {
                assert(name_views(to_create@) =~= create_plan(des.take(j + 1), obs));
            }
        }
        j += 1;
    }
    proof {
        assert(des.take(desired@.len() as int) =~= des);
    }

    Plan { to_create, to_update }
}

} // verus!

