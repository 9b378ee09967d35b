use vstd::prelude::*;
use vstd::pervasive::VecAdditionalExecFns;

use super::analytic_service::analytic_unit::types::{
    AnalyticUnitConfig, PatternConfig, config_id, default_config_for_id, default_pattern_config,
    get_config_id,
};

verus! {

/// A row of the analytic-unit table: the unit's id (which is also its kind), the
/// time of its last detection, whether it is the active unit, and its configuration.
pub struct AnalyticUnitRow {
    pub id: String,
    pub last_detection: Option<u64>,
    pub active: bool,
    pub config: AnalyticUnitConfig,
}

pub struct AnalyticUnitRowView {
    pub id: Seq<char>,
    pub last_detection: Option<u64>,
    pub active: bool,
    pub config: AnalyticUnitConfig,
}

impl View for AnalyticUnitRow {
    type V = AnalyticUnitRowView;

    open spec fn view(&self) -> AnalyticUnitRowView {
        AnalyticUnitRowView {
            id: self.id@,
            last_detection: self.last_detection,
            active: self.active,
            config: self.config,
        }
    }
}

/// The views of a list of rows.
pub open spec fn row_views(rows: Seq<AnalyticUnitRow>) -> Seq<AnalyticUnitRowView> {
    rows.map_values(|r: AnalyticUnitRow| r@)
}

/// A row with the id `id` exists.
pub open spec fn has_row(rows: Seq<AnalyticUnitRowView>, id: Seq<char>) -> bool {
    exists|i: int| 0 <= i < rows.len() && rows[i].id == id
}

/// Some row is active.
pub open spec fn has_active(rows: Seq<AnalyticUnitRowView>) -> bool {
    exists|i: int| 0 <= i < rows.len() && rows[i].active
}

/// The configuration stored under `id`, if any.
pub open spec fn config_of_id(rows: Seq<AnalyticUnitRowView>, id: Seq<char>) -> Option<AnalyticUnitConfig> {
    if has_row(rows, id) {
        Some(rows[choose|i: int| 0 <= i < rows.len() && rows[i].id == id].config)
    } else {
        None
    }
}

/// The configuration of the active unit, if any.
pub open spec fn active_config(rows: Seq<AnalyticUnitRowView>) -> Option<AnalyticUnitConfig> {
    if has_active(rows) {
        Some(rows[choose|i: int| 0 <= i < rows.len() && rows[i].active].config)
    } else {
        None
    }
}

/// Ids are unique and at most one unit is active.
pub open spec fn table_wf(rows: Seq<AnalyticUnitRowView>) -> bool {
    &&& forall|i: int, j: int|
        0 <= i < rows.len() && 0 <= j < rows.len() && i != j ==> (#[trigger] rows[i]).id != (
        #[trigger] rows[j]).id
    &&& forall|i: int, j: int|
        0 <= i < rows.len() && 0 <= j < rows.len() && (#[trigger] rows[i]).active && (
        #[trigger] rows[j]).active ==> i == j
}

/// Only the row `id` is active.
pub open spec fn activate(rows: Seq<AnalyticUnitRowView>, id: Seq<char>) -> Seq<AnalyticUnitRowView> {
    Seq::new(rows.len(), |i: int| AnalyticUnitRowView { active: rows[i].id == id, ..rows[i] })
}

/// The table after making `cfg`'s kind the active unit: its row is added with `cfg`
/// if missing (an existing row keeps its configuration), and it alone is active.
pub open spec fn resolve_rows(rows: Seq<AnalyticUnitRowView>, cfg: AnalyticUnitConfig) -> Seq<AnalyticUnitRowView> {
    let id = config_id(cfg);
    let with_row = if has_row(rows, id) {
        rows
    } else {
        rows.push(AnalyticUnitRowView { id, last_detection: None, active: false, config: cfg })
    };
    activate(with_row, id)
}

/// The rows whose id is `id` get the configuration `cfg`.
pub open spec fn set_config_of_id(rows: Seq<AnalyticUnitRowView>, id: Seq<char>, cfg: AnalyticUnitConfig) -> Seq<AnalyticUnitRowView> {
    Seq::new(
        rows.len(),
        |i: int|
            if rows[i].id == id {
                AnalyticUnitRowView { config: cfg, ..rows[i] }
            } else {
                rows[i]
            },
    )
}

/// The active rows get the configuration `cfg`.
pub open spec fn set_active_config(rows: Seq<AnalyticUnitRowView>, cfg: AnalyticUnitConfig) -> Seq<AnalyticUnitRowView> {
    Seq::new(
        rows.len(),
        |i: int|
            if rows[i].active {
                AnalyticUnitRowView { config: cfg, ..rows[i] }
            } else {
                rows[i]
            },
    )
}

/// The rows whose id is `id` get the last detection time `t`.
pub open spec fn set_last_detection_of(rows: Seq<AnalyticUnitRowView>, id: Seq<char>, t: u64) -> Seq<AnalyticUnitRowView> {
    Seq::new(
        rows.len(),
        |i: int|
            if rows[i].id == id {
                AnalyticUnitRowView { last_detection: Some(t), ..rows[i] }
            } else {
                rows[i]
            },
    )
}

/// Why the active unit could not be read.
#[derive(Debug, Clone, Copy, PartialEq, Eq, Structural)]
pub enum AnalyticUnitServiceError {
    /// No unit is active.
    NoActiveUnit,
}

/// The table of analytic units: one row per kind of unit that was used, at most one active.
pub struct AnalyticUnitService {
    rows: Vec<AnalyticUnitRow>,
}

impl View for AnalyticUnitService {
    type V = Seq<AnalyticUnitRowView>;

    closed spec fn view(&self) -> Seq<AnalyticUnitRowView> {
        row_views(self.rows@)
    }
}

impl AnalyticUnitService {
    pub open spec fn wf(&self) -> bool {
        table_wf(self@)
    }

    /// An empty table.
    pub fn new() -> (s: AnalyticUnitService)
        ensures
            s@ == Seq::<AnalyticUnitRowView>::empty(),
            s.wf(),
    {
        let s = AnalyticUnitService { rows: Vec::new() };
        assert(s@ =~= Seq::<AnalyticUnitRowView>::empty());
        s
    }

    /// Stores a row read back from storage, unless its id is already taken.
    pub fn add_row(&mut self, row: AnalyticUnitRow) -> (added: bool)
        requires
            old(self).wf(),
        ensures
            final(self).wf(),
            added == (!has_row(old(self)@, row.id@) && !(row.active && has_active(old(self)@))),
            added ==> final(self)@ == old(self)@.push(row@),
            !added ==> final(self)@ == old(self)@,
    {
        if self.find_id(&row.id).is_some() {
            return false;
        }
        if row.active && self.find_active().is_some() {
            return false;
        }
        let ghost before = self@;
        let ghost rv = row@;
        self.rows.push(row);
        proof {
            assert(self@ =~= before.push(rv));
            let t = self@;
            assert forall|i: int, j: int|
                0 <= i < t.len() && 0 <= j < t.len() && i != j implies (#[trigger] t[i]).id != (
            #[trigger] t[j]).id by {
                if i < before.len() && j < before.len() {
                    assert(t[i] == before[i] && t[j] == before[j]);
                } else if i < before.len() {
                    assert(t[i] == before[i]);
                } else {
                    assert(t[j] == before[j]);
                }
            }
            assert forall|i: int, j: int|
                0 <= i < t.len() && 0 <= j < t.len() && (#[trigger] t[i]).active && (
                #[trigger] t[j]).active implies i == j by {
                if i < before.len() && j < before.len() {
                    assert(t[i] == before[i] && t[j] == before[j]);
                } else if i < before.len() {
                    assert(t[i] == before[i]);
                } else if j < before.len() {
                    assert(t[j] == before[j]);
                }
            }
        }
        true
    }

    /// The position of the row with id `id`.
    fn find_id(&self, id: &String) -> (r: Option<usize>)
        ensures
            r is None <==> !has_row(self@, id@),
            r matches Some(i) ==> i < self@.len() && self@[i as int].id == id@,
    {
        let mut i: usize = 0;
        while i < self.rows.len()
            invariant
                i <= self.rows@.len(),
                self@ == row_views(self.rows@),
                forall|j: int| 0 <= j < i ==> self@[j].id != id@,
            decreases self.rows@.len() - i,
        {
            if self.rows[i].id.eq(id) {
                return Some(i);
            }
            i = i + 1;
        }
        None
    }

    /// The position of an active row.
    fn find_active(&self) -> (r: Option<usize>)
        ensures
            r is None <==> !has_active(self@),
            r matches Some(i) ==> i < self@.len() && self@[i as int].active,
    {
        let mut i: usize = 0;
        while i < self.rows.len()
            invariant
                i <= self.rows@.len(),
                self@ == row_views(self.rows@),
                forall|j: int| 0 <= j < i ==> !self@[j].active,
            decreases self.rows@.len() - i,
        {
            if self.rows[i].active {
                return Some(i);
            }
            i = i + 1;
        }
        None
    }

    /// Rewrites row `i` with the given activity, configuration and last detection.
    fn rewrite_row(&mut self, i: usize, active: bool, config: AnalyticUnitConfig, last_detection: Option<u64>)
        requires
            i < old(self)@.len(),
        ensures
            final(self)@ == old(self)@.update(
                i as int,
                AnalyticUnitRowView { active, config, last_detection, ..old(self)@[i as int] },
            ),
    {
        let row = AnalyticUnitRow {
            id: self.rows[i].id.clone(),
            last_detection,
            active,
            config,
        };
        self.rows.set(i, row);
        proof {
            assert(self@ =~= old(self)@.update(
                i as int,
                AnalyticUnitRowView { active, config, last_detection, ..old(self)@[i as int] },
            ));
        }
    }

    /// Makes the row `id` the only active one.
    fn activate_id(&mut self, id: &String)
        requires
            forall|i: int, j: int|
                0 <= i < old(self)@.len() && 0 <= j < old(self)@.len() && i != j ==> (#[trigger] old(
                    self,
                )@[i]).id != (#[trigger] old(self)@[j]).id,
        ensures
            final(self)@ == activate(old(self)@, id@),
            final(self).wf(),
    {
        let ghost start = self@;
        let mut i: usize = 0;
        while i < self.rows.len()
            invariant
                i <= self@.len(),
                self@.len() == start.len(),
                self@.len() == self.rows@.len(),
                forall|j: int| 0 <= j < i ==> self@[j] == activate(start, id@)[j],
                forall|j: int| i <= j < self@.len() ==> self@[j] == start[j],
            decreases self@.len() - i,
        {
            let is_target = self.rows[i].id.eq(id);
            let cfg = self.rows[i].config;
            let ld = self.rows[i].last_detection;
            self.rewrite_row(i, is_target, cfg, ld);
            i = i + 1;
        }
        proof {
            assert(self@ =~= activate(start, id@));
            let t = self@;
            assert forall|a: int, b: int|
                0 <= a < t.len() && 0 <= b < t.len() && (#[trigger] t[a]).active && (
                #[trigger] t[b]).active implies a == b by {
                assert(start[a].id == id@ && start[b].id == id@);
            }
            assert forall|a: int, b: int|
                0 <= a < t.len() && 0 <= b < t.len() && a != b implies (#[trigger] t[a]).id != (
            #[trigger] t[b]).id by {
                assert(t[a].id == start[a].id && t[b].id == start[b].id);
            }
        }
    }

    /// Makes the kind of `cfg` the active unit, adding its row with `cfg` if it is
    /// missing. Returns the unit's id.
    pub fn resolve(&mut self, cfg: &AnalyticUnitConfig) -> (id: String)
        requires
            old(self).wf(),
        ensures
            final(self).wf(),
            id@ == config_id(*cfg),
            final(self)@ == resolve_rows(old(self)@, *cfg),
    {
        let id = get_config_id(cfg);
        if self.find_id(&id).is_none() {
            let ghost before = self@;
            self.rows.push(AnalyticUnitRow { id: id.clone(), last_detection: None, active: false, config: *cfg });
            proof {
                assert(self@ =~= before.push(AnalyticUnitRowView { id: id@, last_detection: None, active: false, config: *cfg }));
                let t = self@;
                assert forall|a: int, b: int|
                    0 <= a < t.len() && 0 <= b < t.len() && a != b implies (#[trigger] t[a]).id != (
                #[trigger] t[b]).id by {
                    if a < before.len() && b < before.len() {
                        assert(t[a] == before[a] && t[b] == before[b]);
                    } else if a < before.len() {
                        assert(t[a] == before[a]);
                    } else {
                        assert(t[b] == before[b]);
                    }
                }
            }
        }
        self.activate_id(&id);
        id
    }

    /// Sets the last detection time of the unit `id`.
    pub fn set_last_detection(&mut self, id: &String, last_detection: u64)
        requires
            old(self).wf(),
        ensures
            final(self).wf(),
            final(self)@ == set_last_detection_of(old(self)@, id@, last_detection),
    {
        let ghost start = self@;
        let mut i: usize = 0;
        while i < self.rows.len()
            invariant
                i <= self@.len(),
                self@.len() == start.len(),
                self@.len() == self.rows@.len(),
                forall|j: int| 0 <= j < i ==> self@[j] == set_last_detection_of(start, id@, last_detection)[j],
                forall|j: int| i <= j < self@.len() ==> self@[j] == start[j],
            decreases self@.len() - i,
        {
            if self.rows[i].id.eq(id) {
                let active = self.rows[i].active;
                let cfg = self.rows[i].config;
                self.rewrite_row(i, active, cfg, Some(last_detection));
            }
            i = i + 1;
        }
        proof {
            assert(self@ =~= set_last_detection_of(start, id@, last_detection));
            lemma_same_ids_and_activity_keep_wf(start, self@);
        }
    }

    /// Sets the configuration of the unit `id`.
    pub fn update_config_by_id(&mut self, id: &String, cfg: &AnalyticUnitConfig)
        requires
            old(self).wf(),
        ensures
            final(self).wf(),
            final(self)@ == set_config_of_id(old(self)@, id@, *cfg),
    {
        let ghost start = self@;
        let mut i: usize = 0;
        while i < self.rows.len()
            invariant
                i <= self@.len(),
                self@.len() == start.len(),
                self@.len() == self.rows@.len(),
                forall|j: int| 0 <= j < i ==> self@[j] == set_config_of_id(start, id@, *cfg)[j],
                forall|j: int| i <= j < self@.len() ==> self@[j] == start[j],
            decreases self@.len() - i,
        {
            if self.rows[i].id.eq(id) {
                let active = self.rows[i].active;
                let ld = self.rows[i].last_detection;
                self.rewrite_row(i, active, *cfg, ld);
            }
            i = i + 1;
        }
        proof {
            assert(self@ =~= set_config_of_id(start, id@, *cfg));
            lemma_same_ids_and_activity_keep_wf(start, self@);
        }
    }

    /// Sets the configuration of the active unit.
    pub fn update_active_config(&mut self, cfg: &AnalyticUnitConfig)
        requires
            old(self).wf(),
        ensures
            final(self).wf(),
            final(self)@ == set_active_config(old(self)@, *cfg),
    {
        let ghost start = self@;
        let mut i: usize = 0;
        while i < self.rows.len()
            invariant
                i <= self@.len(),
                self@.len() == start.len(),
                self@.len() == self.rows@.len(),
                forall|j: int| 0 <= j < i ==> self@[j] == set_active_config(start, *cfg)[j],
                forall|j: int| i <= j < self@.len() ==> self@[j] == start[j],
            decreases self@.len() - i,
        {
            if self.rows[i].active {
                let ld = self.rows[i].last_detection;
                self.rewrite_row(i, true, *cfg, ld);
            }
            i = i + 1;
        }
        proof {
            assert(self@ =~= set_active_config(start, *cfg));
            lemma_same_ids_and_activity_keep_wf(start, self@);
        }
    }

    /// The configuration of the active unit; when none is active, the default
    /// pattern configuration is made active and returned.
    pub fn get_active_config(&mut self) -> (c: AnalyticUnitConfig)
        requires
            old(self).wf(),
        ensures
            final(self).wf(),
            active_config(old(self)@) matches Some(a) ==> c == a && final(self)@ == old(self)@,
            active_config(old(self)@) is None ==> c == AnalyticUnitConfig::Pattern(
                default_pattern_config(),
            ) && final(self)@ == resolve_rows(old(self)@, c),
    {
        match self.find_active() {
            Some(i) => {
                proof {
                    let k = choose|k: int| 0 <= k < self@.len() && self@[k].active;
                    assert(k == i);
                }
                self.rows[i].config
            },
            None => {
                let c = AnalyticUnitConfig::Pattern(PatternConfig::default());
                self.resolve(&c);
                c
            },
        }
    }

    /// The active unit's configuration, re-activating its kind; an error when no unit is active.
    pub fn get_active(&mut self) -> (r: Result<AnalyticUnitConfig, AnalyticUnitServiceError>)
        requires
            old(self).wf(),
        ensures
            final(self).wf(),
            active_config(old(self)@) matches Some(a) ==> r == Ok::<AnalyticUnitConfig, AnalyticUnitServiceError>(a)
                && final(self)@ == resolve_rows(old(self)@, a),
            active_config(old(self)@) is None ==> r == Err::<AnalyticUnitConfig, AnalyticUnitServiceError>(
                AnalyticUnitServiceError::NoActiveUnit,
            ) && final(self)@ == old(self)@,
    {
        match self.find_active() {
            Some(i) => {
                proof {
                    let k = choose|k: int| 0 <= k < self@.len() && self@[k].active;
                    assert(k == i);
                }
                let c = self.rows[i].config;
                self.resolve(&c);
                Ok(c)
            },
            None => Err(AnalyticUnitServiceError::NoActiveUnit),
        }
    }

    /// The configuration stored under `id`; when there is none, the default
    /// configuration for `id` is made active and returned.
    pub fn get_config_by_id(&mut self, id: &String) -> (c: AnalyticUnitConfig)
        requires
            old(self).wf(),
        ensures
            final(self).wf(),
            config_of_id(old(self)@, id@) matches Some(a) ==> c == a && final(self)@ == old(self)@,
            config_of_id(old(self)@, id@) is None ==> c == default_config_for_id(id@) && final(self)@
                == resolve_rows(old(self)@, c),
    {
        match self.find_id(id) {
            Some(i) => {
                proof {
                    let k = choose|k: int| 0 <= k < self@.len() && self@[k].id == id@;
                    assert(k == i);
                }
                self.rows[i].config
            },
            None => {
                let c = AnalyticUnitConfig::get_default_by_id(id);
                self.resolve(&c);
                c
            },
        }
    }

    /// The id under which the kind of `cfg` is stored.
    pub fn get_config_id(&self, cfg: &AnalyticUnitConfig) -> (id: String)
        ensures
            id@ == config_id(*cfg),
    {
        get_config_id(cfg)
    }
}

proof fn lemma_same_ids_and_activity_keep_wf(a: Seq<AnalyticUnitRowView>, b: Seq<AnalyticUnitRowView>)
    requires
        table_wf(a),
        a.len() == b.len(),
        forall|i: int| 0 <= i < a.len() ==> (#[trigger] b[i]).id == a[i].id && b[i].active == a[i].active,
    ensures
        table_wf(b),
{
    assert forall|i: int, j: int|
        0 <= i < b.len() && 0 <= j < b.len() && i != j implies (#[trigger] b[i]).id != (
    #[trigger] b[j]).id by {
        assert(a[i].id != a[j].id);
    }
    assert forall|i: int, j: int|
        0 <= i < b.len() && 0 <= j < b.len() && (#[trigger] b[i]).active && (#[trigger] b[j]).active implies i == j by {
        assert(a[i].active && a[j].active);
    }
}

/// After a unit is resolved, it is the one active unit.
pub proof fn lemma_resolve_activates_only_it(rows: Seq<AnalyticUnitRowView>, cfg: AnalyticUnitConfig)
    requires
        table_wf(rows),
    ensures
        has_active(resolve_rows(rows, cfg)),
        forall|i: int|
            0 <= i < resolve_rows(rows, cfg).len() ==> ((#[trigger] resolve_rows(rows, cfg)[i]).active
                <==> resolve_rows(rows, cfg)[i].id == config_id(cfg)),
{
    let id = config_id(cfg);
    let with_row = if has_row(rows, id) {
        rows
    } else {
        rows.push(AnalyticUnitRowView { id, last_detection: None, active: false, config: cfg })
    };
    let out = resolve_rows(rows, cfg);
    if has_row(rows, id) {
        let k = choose|k: int| 0 <= k < rows.len() && rows[k].id == id;
        assert(out[k].active);
    } else {
        assert(with_row[rows.len() as int].id == id);
        assert(out[rows.len() as int].active);
    }
}

/// Setting the active unit's configuration and reading it back gives what was set.
pub proof fn lemma_active_config_read_after_write(rows: Seq<AnalyticUnitRowView>, cfg: AnalyticUnitConfig)
    requires
        table_wf(rows),
        has_active(rows),
    ensures
        active_config(set_active_config(rows, cfg)) == Some(cfg),
{
    let out = set_active_config(rows, cfg);
    let k = choose|k: int| 0 <= k < rows.len() && rows[k].active;
    assert(out[k].active);
    let c = choose|i: int| 0 <= i < out.len() && out[i].active;
    assert(rows[c].active);
}

/// Setting the configuration stored under an existing id and reading it back gives what was set.
pub proof fn lemma_config_by_id_read_after_write(rows: Seq<AnalyticUnitRowView>, id: Seq<char>, cfg: AnalyticUnitConfig)
    requires
        table_wf(rows),
        has_row(rows, id),
    ensures
        config_of_id(set_config_of_id(rows, id, cfg), id) == Some(cfg),
{
    let out = set_config_of_id(rows, id, cfg);
    let k = choose|k: int| 0 <= k < rows.len() && rows[k].id == id;
    assert(out[k].id == id);
    let c = choose|i: int| 0 <= i < out.len() && out[i].id == id;
    assert(rows[c].id == id);
}


/// After resolving a configuration, the active configuration read back is `cfg`
/// when its kind had no row yet, and otherwise the configuration already stored
/// for that kind (resolving does not overwrite it).
pub proof fn lemma_resolve_read_back(rows: Seq<AnalyticUnitRowView>, cfg: AnalyticUnitConfig)
    requires
        table_wf(rows),
    ensures
        !has_row(rows, config_id(cfg)) ==> active_config(resolve_rows(rows, cfg)) == Some(cfg),
        has_row(rows, config_id(cfg)) ==> active_config(resolve_rows(rows, cfg)) == config_of_id(
            rows,
            config_id(cfg),
        ),
{
    let id = config_id(cfg);
    let out = resolve_rows(rows, cfg);
    lemma_resolve_activates_only_it(rows, cfg);
    let c = choose|i: int| 0 <= i < out.len() && out[i].active;
    assert(out[c].id == id);
    if has_row(rows, id) {
        let k = choose|k: int| 0 <= k < rows.len() && rows[k].id == id;
        assert(rows[c].id == id);
        assert(c == k);
    } else {
        if c < rows.len() {
            assert(out[c].id == rows[c].id);
            assert(false);
        }
    }
}

} // verus!
