//! The stat-to-text rendering engine: groups a modifier's rolled stats,
//! matches them against conditional phrasing alternatives, and substitutes
//! numbered placeholders.
use vstd::prelude::*;
use vstd::string::StringExecFns;

use crate::mods::{inst_stats, ModInstance, StatRoll};
use crate::strutil::{contains_string, dec_i32, i32_to_string, replace_of, str_eq, str_replace,
    strings};

verus! {

/// An optional inclusive numeric condition on one rolled value.
pub struct Range {
    pub min: Option<i32>,
    pub max: Option<i32>,
}

/// One phrasing alternative: per-slot conditions, per-slot format
/// directives, index handlers (unused by the core), and a template string
/// with numbered placeholders.
pub struct StatWording {
    pub condition: Vec<Range>,
    pub format: Vec<String>,
    pub index_handlers: Vec<Vec<String>>,
    pub string: String,
}

/// A description template: the stat ids it jointly describes, in slot
/// order, and its phrasing alternatives in preference order.
pub struct StatDescription {
    pub alternatives: Vec<StatWording>,
    pub ids: Vec<String>,
}

/// The rendering engine, built once over the description catalog.
pub struct ModDescriber<'a> {
    pub descriptions: &'a Vec<StatDescription>,
}

/// Whether a roll satisfies an optional inclusive range condition.
pub open spec fn cond_ok(c: Range, r: i32) -> bool {
    &&& match c.min {
        Some(mn) => mn <= r,
        None => true,
    }
    &&& match c.max {
        Some(mx) => r <= mx,
        None => true,
    }
}

/// Whether every slot's condition accepts its roll; slots beyond either
/// list are unconstrained, as zipping leaves them unpaired.
pub open spec fn wording_matches(w: StatWording, rolls: Seq<i32>) -> bool {
    forall|i: int|
        0 <= i < rolls.len() && i < w.condition@.len() ==> cond_ok(
            #[trigger] w.condition@[i],
            rolls[i],
        )
}

/// The numbered placeholder for slot `i`.
pub open spec fn placeholder(i: int) -> Seq<char> {
    "{"@ + dec_i32(i) + "}"@
}

/// One substitution pass: slot `i`'s placeholder is replaced by the
/// slot's format directive with its marker character replaced by the
/// decimal roll; the `ignore` directive substitutes nothing.
pub open spec fn subst_one(cur: Seq<char>, w: StatWording, rolls: Seq<i32>, i: int) -> Seq<char> {
    if w.format@[i]@ == "ignore"@ {
        cur
    } else {
        replace_of(cur, placeholder(i), replace_of(w.format@[i]@, "#"@, dec_i32(rolls[i] as int)))
    }
}

/// The template string after substituting the first `n` slots.
pub open spec fn rendered_upto(w: StatWording, rolls: Seq<i32>, n: int) -> Seq<char>
    decreases n,
{
    if n <= 0 {
        w.string@
    } else {
        subst_one(rendered_upto(w, rolls, n - 1), w, rolls, n - 1)
    }
}

/// The fully substituted template string.
pub open spec fn rendered(w: StatWording, rolls: Seq<i32>) -> Seq<char> {
    rendered_upto(w, rolls, rolls.len() as int)
}

/// The first alternative, from `k` on, whose conditions all match.
pub open spec fn choose_alt(alts: Seq<StatWording>, rolls: Seq<i32>, k: int) -> Option<int>
    decreases alts.len() - k,
    when 0 <= k <= alts.len()
{
    if k >= alts.len() {
        None
    } else if wording_matches(alts[k], rolls) {
        Some(k)
    } else {
        choose_alt(alts, rolls, k + 1)
    }
}

/// Whether the description covers the given stat id.
pub open spec fn ids_contain(d: StatDescription, id: Seq<char>) -> bool {
    strings(d.ids@).contains(id)
}

/// The first description, from `k` on, that covers the given stat id.
pub open spec fn find_desc_from(descs: Seq<StatDescription>, id: Seq<char>, k: int) -> Option<int>
    decreases descs.len() - k,
    when 0 <= k <= descs.len()
{
    if k >= descs.len() {
        None
    } else if ids_contain(descs[k], id) {
        Some(k)
    } else {
        find_desc_from(descs, id, k + 1)
    }
}

/// The first description that covers the given stat id.
pub open spec fn find_desc(descs: Seq<StatDescription>, id: Seq<char>) -> Option<int> {
    find_desc_from(descs, id, 0)
}

/// The (id, roll) view of a pool of rolled stats.
pub open spec fn pool_view(v: Seq<StatRoll>) -> Seq<(Seq<char>, i32)> {
    v.map_values(|s: StatRoll| (s.id@, s.roll))
}

/// The pool after removing index `i` by swapping the last element in.
pub open spec fn swap_removed(pool: Seq<(Seq<char>, i32)>, i: int) -> Seq<(Seq<char>, i32)> {
    pool.update(i, pool.last()).drop_last()
}

/// The first pool index, from `k` on, holding the given stat id.
pub open spec fn first_idx(pool: Seq<(Seq<char>, i32)>, id: Seq<char>, k: int) -> Option<int>
    decreases pool.len() - k,
    when 0 <= k <= pool.len()
{
    if k >= pool.len() {
        None
    } else if pool[k].0 == id {
        Some(k)
    } else {
        first_idx(pool, id, k + 1)
    }
}

/// Collects one roll per covered stat id, in the template's slot order:
/// the first pool entry with the id is removed and its roll recorded; a
/// missing id records a neutral roll of zero.
pub open spec fn collect_rolls(pool: Seq<(Seq<char>, i32)>, ids: Seq<Seq<char>>) -> (
    Seq<(Seq<char>, i32)>,
    Seq<i32>,
)
    decreases ids.len(),
{
    if ids.len() == 0 {
        (pool, Seq::<i32>::empty())
    } else {
        let step = match first_idx(pool, ids[0], 0) {
            Some(i) => (swap_removed(pool, i), pool[i].1),
            None => (pool, 0i32),
        };
        let rec = collect_rolls(step.0, ids.drop_first());
        (rec.0, seq![step.1] + rec.1)
    }
}

/// The visible marker emitted when no phrasing alternative matches.
pub open spec fn no_alternative_line() -> Seq<char> {
    "ERROR: None of the description alternatives match.\n"@
}

/// A found index points at an entry with the id; a missing one means no
/// entry from `k` on has it.
proof fn lemma_first_idx(pool: Seq<(Seq<char>, i32)>, id: Seq<char>, k: int)
    requires
        0 <= k <= pool.len(),
    ensures
        match first_idx(pool, id, k) {
            Some(i) => k <= i < pool.len() && pool[i].0 == id,
            None => forall|j: int| k <= j < pool.len() ==> (#[trigger] pool[j]).0 != id,
        },
    decreases pool.len() - k,
{
    if k < pool.len() && pool[k].0 != id {
        lemma_first_idx(pool, id, k + 1);
    }
}

/// Collecting never grows the pool.
proof fn lemma_collect_le(pool: Seq<(Seq<char>, i32)>, ids: Seq<Seq<char>>)
    ensures
        collect_rolls(pool, ids).0.len() <= pool.len(),
    decreases ids.len(),
{
    if ids.len() > 0 {
        match first_idx(pool, ids[0], 0) {
            Some(i) => {
                lemma_first_idx(pool, ids[0], 0);
                lemma_collect_le(swap_removed(pool, i), ids.drop_first());
            },
            None => {
                lemma_collect_le(pool, ids.drop_first());
            },
        }
    }
}

/// Collecting strictly shrinks the pool when some covered id is present
/// in it.
proof fn lemma_collect_lt(pool: Seq<(Seq<char>, i32)>, ids: Seq<Seq<char>>, jj: int, ii: int)
    requires
        0 <= jj < ids.len(),
        0 <= ii < pool.len(),
        pool[ii].0 == ids[jj],
    ensures
        collect_rolls(pool, ids).0.len() < pool.len(),
    decreases ids.len(),
{
    lemma_first_idx(pool, ids[0], 0);
    match first_idx(pool, ids[0], 0) {
        Some(i) => {
            lemma_collect_le(swap_removed(pool, i), ids.drop_first());
        },
        None => {
            assert(jj != 0);
            lemma_collect_lt(pool, ids.drop_first(), jj - 1, ii);
        },
    }
}

/// A found description covers the id; a missing result means none does.
proof fn lemma_find_desc(descs: Seq<StatDescription>, id: Seq<char>, k: int)
    requires
        0 <= k <= descs.len(),
    ensures
        match find_desc_from(descs, id, k) {
            Some(i) => k <= i < descs.len() && ids_contain(descs[i], id),
            None => true,
        },
    decreases descs.len() - k,
{
    if k < descs.len() && !ids_contain(descs[k], id) {
        lemma_find_desc(descs, id, k + 1);
    }
}

/// The full rendering of a pool of rolled stats: repeatedly anchor on the
/// last entry, look its template up, collect that template's rolls out of
/// the pool, and emit the first matching alternative's substituted text or
/// a visible error marker; an anchor without a template is dropped and
/// reported. The pool shrinks every round, so the rendering is finite.
pub open spec fn describe_pool(descs: Seq<StatDescription>, pool: Seq<(Seq<char>, i32)>) -> (
    Seq<char>,
    Seq<Seq<char>>,
)
    decreases pool.len(),
    via describe_pool_decreases
{
    if pool.len() == 0 {
        (Seq::<char>::empty(), Seq::<Seq<char>>::empty())
    } else {
        let anchor = pool.last();
        match find_desc(descs, anchor.0) {
            None => {
                let rest = describe_pool(descs, pool.drop_last());
                (rest.0, seq![anchor.0] + rest.1)
            },
            Some(di) => {
                let cr = collect_rolls(pool, strings(descs[di].ids@));
                let line = match choose_alt(descs[di].alternatives@, cr.1, 0) {
                    Some(ai) => rendered(descs[di].alternatives@[ai], cr.1) + "\n"@,
                    None => no_alternative_line(),
                };
                let rest = describe_pool(descs, cr.0);
                (line + rest.0, rest.1)
            },
        }
    }
}

#[via_fn]
proof fn describe_pool_decreases(descs: Seq<StatDescription>, pool: Seq<(Seq<char>, i32)>) {
    if pool.len() > 0 {
        let anchor = pool.last();
        match find_desc(descs, anchor.0) {
            None => {},
            Some(di) => {
                lemma_find_desc(descs, anchor.0, 0);
                let ids = strings(descs[di].ids@);
                let jj = choose|jj: int| 0 <= jj < ids.len() && ids[jj] == anchor.0;
                lemma_collect_lt(pool, ids, jj, pool.len() - 1);
            },
        }
    }
}

/// Every description's slot count fits an `i32` and every alternative has
/// a format directive for each slot, so that substitution can index them.
pub open spec fn describer_wf(descs: Seq<StatDescription>) -> bool {
    forall|i: int|
        0 <= i < descs.len() ==> {
            let d = #[trigger] descs[i];
            &&& d.ids@.len() <= 0x7FFF_FFFF
            &&& forall|j: int|
                0 <= j < d.alternatives@.len() ==> (#[trigger] d.alternatives@[j]).format@.len()
                    >= d.ids@.len()
        }
}

impl StatWording {
    /// Substitutes each slot's roll into the template string.
    pub fn describe(&self, rolls: &Vec<i32>) -> (r: String)
        requires
            self.format@.len() >= rolls@.len(),
            rolls@.len() <= 0x7FFF_FFFF,
        ensures
            r@ == rendered(*self, rolls@),
    {
        let mut res: String = self.string.clone();
        let mut i: usize = 0;
        while i < rolls.len()
            invariant
                i <= rolls@.len(),
                self.format@.len() >= rolls@.len(),
                rolls@.len() <= 0x7FFF_FFFF,
                res@ == rendered_upto(*self, rolls@, i as int),
            decreases rolls@.len() - i,
        {
            if !str_eq(self.format[i].as_str(), "ignore") {
                let num = i32_to_string(rolls[i]);
                let fmt = str_replace(self.format[i].as_str(), "#", num.as_str());
                let mut ph = String::from_str("{");
                let idx = i32_to_string(i as i32);
                ph.append(idx.as_str());
                ph.append("}");
                assert(ph@ == placeholder(i as int));
                res = str_replace(res.as_str(), ph.as_str(), fmt.as_str());
            }
            i += 1;
        }
        res
    }

    /// Renders the template when every slot's condition accepts its roll,
    /// and reports the mismatch otherwise.
    pub fn describe_if_match(&self, rolls: &Vec<i32>) -> (r: Option<String>)
        requires
            self.format@.len() >= rolls@.len(),
            rolls@.len() <= 0x7FFF_FFFF,
        ensures
            r is Some <==> wording_matches(*self, rolls@),
            match r {
                Some(s) => s@ == rendered(*self, rolls@),
                None => true,
            },
    {
        let n = if rolls.len() <= self.condition.len() {
            rolls.len()
        } else {
            self.condition.len()
        };
        let mut i: usize = 0;
        while i < n
            invariant
                i <= n,
                n <= rolls@.len(),
                n <= self.condition@.len(),
                n == if rolls@.len() <= self.condition@.len() {
                    rolls@.len()
                } else {
                    self.condition@.len()
                },
                forall|j: int|
                    0 <= j < i ==> cond_ok(#[trigger] self.condition@[j], rolls@[j]),
            decreases n - i,
        {
            let ok_min = match self.condition[i].min {
                Some(mn) => mn <= rolls[i],
                None => true,
            };
            let ok_max = match self.condition[i].max {
                Some(mx) => rolls[i] <= mx,
                None => true,
            };
            if !(ok_min && ok_max) {
                assert(!cond_ok(self.condition@[i as int], rolls@[i as int]));
                return None;
            }
            i += 1;
        }
        Some(self.describe(rolls))
    }
}

impl<'a> ModDescriber<'a> {
    /// Wraps the description catalog; lookups scan it in declared order.
    pub fn new(descriptions: &'a Vec<StatDescription>) -> (r: Self)
        ensures
            r.descriptions@ == descriptions@,
    {
        ModDescriber { descriptions }
    }

    /// The first description covering the given stat id, if any.
    fn lookup(&self, id: &str) -> (r: Option<usize>)
        ensures
            match r {
                Some(di) => di < self.descriptions@.len() && find_desc(self.descriptions@, id@)
                    == Some(di as int),
                None => find_desc(self.descriptions@, id@) is None,
            },
    {
        let descs = self.descriptions;
        let mut k: usize = 0;
        while k < descs.len()
            invariant
                k <= descs@.len(),
                descs == self.descriptions,
                find_desc(descs@, id@) == find_desc_from(descs@, id@, k as int),
            decreases descs@.len() - k,
        {
            if contains_string(&descs[k].ids, id) {
                assert(ids_contain(descs@[k as int], id@));
                assert(find_desc_from(descs@, id@, k as int) == Some(k as int));
                return Some(k);
            }
            assert(!ids_contain(descs@[k as int], id@));
            k += 1;
        }
        None
    }

    /// Renders every rolled stat of the instance: the first component is
    /// the emitted text, one line per described group; the second is the
    /// stat ids that no description covers, in the order they were
    /// encountered.
    pub fn describe(&self, m: &ModInstance) -> (r: (String, Vec<String>))
        requires
            describer_wf(self.descriptions@),
        ensures
            r.0@ == describe_pool(self.descriptions@, inst_stats(*m)).0,
            strings(r.1@) == describe_pool(self.descriptions@, inst_stats(*m)).1,
    {
        let ghost descs = self.descriptions@;
        let mut stats: Vec<StatRoll> = m.stats();
        proof {
            assert(pool_view(stats@) =~= inst_stats(*m));
        }
        let ghost pool0 = pool_view(stats@);
        let mut out = String::new();
        let mut unmapped: Vec<String> = Vec::new();
        while stats.len() > 0
            invariant
                describer_wf(descs),
                descs == self.descriptions@,
                describe_pool(descs, pool0).0 =~= out@ + describe_pool(
                    descs,
                    pool_view(stats@),
                ).0,
                describe_pool(descs, pool0).1 =~= strings(unmapped@) + describe_pool(
                    descs,
                    pool_view(stats@),
                ).1,
            decreases stats@.len(),
        {
            let ghost pool_in = pool_view(stats@);
            let anchor_id: String = stats[stats.len() - 1].id.to_owned();
            proof {
                assert(pool_in.last() == (anchor_id@, stats@.last().roll));
            }
            match self.lookup(anchor_id.as_str()) {
                None => {
                    stats.pop();
                    proof {
                        assert(pool_view(stats@) =~= pool_in.drop_last());
                        let rest = describe_pool(descs, pool_view(stats@));
                        assert(describe_pool(descs, pool_in).0 == rest.0);
                        assert(describe_pool(descs, pool_in).1 =~= seq![anchor_id@] + rest.1);
                        assert(strings(unmapped@.push(anchor_id)) =~= strings(unmapped@).push(
                            anchor_id@,
                        ));
                        assert(strings(unmapped@) + describe_pool(descs, pool_in).1
                            =~= strings(unmapped@.push(anchor_id)) + rest.1);
                    }
                    unmapped.push(anchor_id);
                },
                Some(di) => {
                    let ghost ids = strings(descs[di as int].ids@);
                    let mut rolls: Vec<i32> = Vec::new();
                    let mut idi: usize = 0;
                    proof {
                        assert(ids.skip(0) =~= ids);
                    }
                    while idi < self.descriptions[di].ids.len()
                        invariant
                            di < self.descriptions@.len(),
                            descs == self.descriptions@,
                            ids == strings(descs[di as int].ids@),
                            idi <= ids.len(),
                            rolls@.len() == idi,
                            collect_rolls(pool_in, ids).0 == collect_rolls(
                                pool_view(stats@),
                                ids.skip(idi as int),
                            ).0,
                            collect_rolls(pool_in, ids).1 =~= rolls@ + collect_rolls(
                                pool_view(stats@),
                                ids.skip(idi as int),
                            ).1,
                        decreases ids.len() - idi,
                    {
                        let ghost cur = pool_view(stats@);
                        let want: &str = self.descriptions[di].ids[idi].as_str();
                        proof {
                            assert(ids.skip(idi as int)[0] == want@);
                        }
                        let mut found = false;
                        let mut at: usize = 0;
                        let mut j: usize = 0;
                        while j < stats.len() && !found
                            invariant
                                j <= stats@.len(),
                                cur == pool_view(stats@),
                                !found ==> first_idx(cur, want@, 0) == first_idx(
                                    cur,
                                    want@,
                                    j as int,
                                ),
                                found ==> at < stats@.len() && first_idx(cur, want@, 0) == Some(
                                    at as int,
                                ),
                            decreases stats@.len() - j,
                        {
                            if str_eq(stats[j].id, want) {
                                at = j;
                                found = true;
                                proof {
                                    assert(cur[j as int].0 == want@);
                                }
                            } else {
                                proof {
                                    assert(cur[j as int].0 != want@);
                                }
                            }
                            j += 1;
                        }
                        let mut roll: i32 = 0;
                        if found {
                            roll = stats[at].roll;
                            stats.swap_remove(at);
                            proof {
                                assert(pool_view(stats@) =~= swap_removed(cur, at as int));
                                assert(roll == cur[at as int].1);
                            }
                        } else {
                            proof {
                                assert(first_idx(cur, want@, 0) is None);
                            }
                        }
                        proof {
                            assert(ids.skip(idi as int).drop_first() =~= ids.skip(idi as int + 1));
                            let rec = collect_rolls(pool_view(stats@), ids.skip(idi as int + 1));
                            assert(collect_rolls(cur, ids.skip(idi as int)).0 == rec.0);
                            assert(collect_rolls(cur, ids.skip(idi as int)).1 =~= seq![roll]
                                + rec.1);
                            assert(rolls@.push(roll) + rec.1 =~= rolls@ + (seq![roll] + rec.1));
                        }
                        rolls.push(roll);
                        idi += 1;
                    }
                    proof {
                        assert(ids.skip(ids.len() as int).len() == 0);
                        assert(collect_rolls(pool_view(stats@), ids.skip(ids.len() as int)).0
                            == pool_view(stats@));
                        assert(collect_rolls(pool_view(stats@), ids.skip(ids.len() as int)).1
                            =~= Seq::<i32>::empty());
                        assert(rolls@ + Seq::<i32>::empty() =~= rolls@);
                        assert(collect_rolls(pool_in, ids).0 == pool_view(stats@));
                        assert(collect_rolls(pool_in, ids).1 == rolls@);
                        lemma_find_desc(descs, anchor_id@, 0);
                        let jj = choose|jj: int| 0 <= jj < ids.len() && ids[jj] == anchor_id@;
                        lemma_collect_lt(pool_in, ids, jj, pool_in.len() - 1);
                    }
                    let ghost alts = self.descriptions@[di as int].alternatives@;
                    let ghost mut chosen: int = 0;
                    let mut line: Option<String> = None;
                    let mut ai: usize = 0;
                    while ai < self.descriptions[di].alternatives.len() && line.is_none()
                        invariant
                            di < self.descriptions@.len(),
                            descs == self.descriptions@,
                            describer_wf(descs),
                            alts == descs[di as int].alternatives@,
                            ai <= alts.len(),
                            rolls@.len() == descs[di as int].ids@.len(),
                            line is None ==> choose_alt(alts, rolls@, 0) == choose_alt(
                                alts,
                                rolls@,
                                ai as int,
                            ),
                            line matches Some(s) ==> 0 <= chosen < alts.len() && choose_alt(
                                alts,
                                rolls@,
                                0,
                            ) == Some(chosen) && s@ == rendered(alts[chosen], rolls@),
                        decreases alts.len() - ai,
                    {
                        match self.descriptions[di].alternatives[ai].describe_if_match(&rolls) {
                            Some(s) => {
                                proof {
                                    chosen = ai as int;
                                    assert(choose_alt(alts, rolls@, ai as int) == Some(ai as int));
                                }
                                line = Some(s);
                            },
                            None => {},
                        }
                        ai += 1;
                    }
                    proof {
                        let cr = collect_rolls(pool_in, ids);
                        let spec_line = match choose_alt(alts, cr.1, 0) {
                            Some(sai) => rendered(alts[sai], cr.1) + "\n"@,
                            None => no_alternative_line(),
                        };
                        assert(describe_pool(descs, pool_in).0 =~= spec_line + describe_pool(
                            descs,
                            cr.0,
                        ).0);
                        assert(describe_pool(descs, pool_in).1 == describe_pool(descs, cr.0).1);
                    }
                    let ghost out0 = out@;
                    let ghost spec_line = match choose_alt(
                        alts,
                        collect_rolls(pool_in, ids).1,
                        0,
                    ) {
                        Some(sai) => rendered(alts[sai], collect_rolls(pool_in, ids).1) + "\n"@,
                        None => no_alternative_line(),
                    };
                    match line {
                        Some(s) => {
                            out.append(s.as_str());
                            out.append("\n");
                        },
                        None => {
                            out.append("ERROR: None of the description alternatives match.\n");
                        },
                    }
                    proof {
                        assert(out@ =~= out0 + spec_line);
                        let rest = describe_pool(descs, pool_view(stats@));
                        assert(out0 + (spec_line + rest.0) =~= out@ + rest.0);
                    }
                },
            }
        }
        proof {
            assert(pool_view(stats@).len() == 0);
            assert(describe_pool(descs, pool_view(stats@)).0 =~= Seq::<char>::empty());
            assert(out@ + Seq::<char>::empty() =~= out@);
            assert(strings(unmapped@) + Seq::<Seq<char>>::empty() =~= strings(unmapped@));
        }
        (out, unmapped)
    }
}

} // verus!
