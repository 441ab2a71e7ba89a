//! The statistics snapshot served to readers: one row per reported
//! statistic with one value per window, and one list per selection kind.
use vstd::prelude::*;
use crate::keys::{ActivityMonitoringConfig, ActivityStatsKeys};
use crate::ranking::TOP_N;
use crate::records::Account;

verus! {

/// The value of a statistic over one window.
pub struct WindowValue {
    /// The window's label.
    pub window: String,
    pub value: u64,
}

/// One statistic over every window.
pub struct StatRow {
    /// The statistic's label.
    pub name: String,
    pub values: Vec<WindowValue>,
}

/// One ranked list of accounts.
pub struct Selection {
    /// The selection kind's label.
    pub name: String,
    pub accounts: Vec<Account>,
}

/// The latest aggregate statistics and selections.
pub struct ActivityStats {
    pub stats: Vec<StatRow>,
    pub selected_accounts: Vec<Selection>,
}

/// The same snapshot under the name the usage endpoint reports it by.
pub type UsageStats = ActivityStats;

impl Clone for WindowValue {
    fn clone(&self) -> (r: Self)
        ensures
            r == *self,
    {
        WindowValue { window: self.window.clone(), value: self.value }
    }
}

impl Clone for StatRow {
    fn clone(&self) -> (r: Self)
        ensures
            r.name == self.name,
            r.values@ == self.values@,
    {
        let values = self.values.clone();
        assert(values@ =~= self.values@);
        StatRow { name: self.name.clone(), values }
    }
}

impl Clone for Selection {
    fn clone(&self) -> (r: Self)
        ensures
            r.name == self.name,
            r.accounts@ == self.accounts@,
    {
        let accounts = self.accounts.clone();
        assert(accounts@ =~= self.accounts@);
        Selection { name: self.name.clone(), accounts }
    }
}

impl Clone for ActivityStats {
    /// A deep copy: the same labels, values and selections.
    fn clone(&self) -> (r: Self)
        ensures
            r.stats@.len() == self.stats@.len(),
            r.selected_accounts@.len() == self.selected_accounts@.len(),
            forall|i: int|
                0 <= i < self.stats@.len() ==> (#[trigger] r.stats@[i]).name == self.stats@[i].name
                    && r.stats@[i].values@ == self.stats@[i].values@,
            forall|k: int|
                0 <= k < self.selected_accounts@.len() ==> (#[trigger] r.selected_accounts@[k]).name
                    == self.selected_accounts@[k].name && r.selected_accounts@[k].accounts@
                    == self.selected_accounts@[k].accounts@,
    {
        ActivityStats { stats: self.stats.clone(), selected_accounts: self.selected_accounts.clone() }
    }
}

impl ActivityStats {
    /// Row `i` is the `i`-th statistic of `keys`, its `j`-th value the
    /// `j`-th window; selection `k` is the `k`-th selection kind and holds at
    /// most `TOP_N` accounts.
    pub open spec fn laid_out(&self, keys: ActivityStatsKeys) -> bool {
        &&& self.stats@.len() == keys.activity_stat_names@.len()
        &&& forall|i: int|
            0 <= i < self.stats@.len() ==> {
                &&& (#[trigger] self.stats@[i]).name@ == keys.activity_stat_names@[i].1@
                &&& self.stats@[i].values@.len() == keys.time_windows@.len()
                &&& forall|j: int|
                    0 <= j < keys.time_windows@.len() ==> (#[trigger] self.stats@[i].values@[j]).window@
                        == keys.time_windows@[j].1@
            }
        &&& self.selected_accounts@.len() == keys.select_accounts_by@.len()
        &&& forall|k: int|
            0 <= k < self.selected_accounts@.len() ==> {
                &&& (#[trigger] self.selected_accounts@[k]).name@ == keys.select_accounts_by@[k].1@
                &&& self.selected_accounts@[k].accounts@.len() <= TOP_N
            }
    }

    /// The value in row `i`, column `j`.
    pub open spec fn value(&self, i: int, j: int) -> u64 {
        self.stats@[i].values@[j].value
    }

    /// The accounts of selection `k`.
    pub open spec fn selection(&self, k: int) -> Seq<Account> {
        self.selected_accounts@[k].accounts@
    }

    /// The snapshot before any refresh: every statistic of the catalog is 0
    /// over every window, and every selection is empty.
    pub fn default(config: &ActivityMonitoringConfig) -> (r: ActivityStats)
        ensures
            r.laid_out(config.spec_keys()),
            forall|i: int, j: int|
                0 <= i < r.stats@.len() && 0 <= j < config.spec_keys().time_windows@.len()
                    ==> #[trigger] r.value(i, j) == 0,
            forall|k: int| 0 <= k < r.selected_accounts@.len() ==> (#[trigger] r.selection(k)).len() == 0,
    {
        let keys = config.activity_stats_keys();
        let mut stats: Vec<StatRow> = Vec::new();
        let mut i: usize = 0;
        while i < keys.activity_stat_names.len()
            invariant
                i <= keys.activity_stat_names@.len(),
                stats@.len() == i,
                forall|a: int|
                    0 <= a < i ==> {
                        &&& (#[trigger] stats@[a]).name@ == keys.activity_stat_names@[a].1@
                        &&& stats@[a].values@.len() == keys.time_windows@.len()
                        &&& forall|j: int|
                            0 <= j < keys.time_windows@.len() ==> (#[trigger] stats@[a].values@[j]).window@
                                == keys.time_windows@[j].1@ && stats@[a].values@[j].value == 0
                    },
            decreases keys.activity_stat_names.len() - i,
        {
            let mut values: Vec<WindowValue> = Vec::new();
            let mut j: usize = 0;
            while j < keys.time_windows.len()
                invariant
                    j <= keys.time_windows@.len(),
                    values@.len() == j,
                    forall|b: int|
                        0 <= b < j ==> (#[trigger] values@[b]).window@ == keys.time_windows@[b].1@
                            && values@[b].value == 0,
                decreases keys.time_windows.len() - j,
            {
                values.push(WindowValue { window: keys.time_windows[j].1.clone(), value: 0 });
                j += 1;
            }
            stats.push(StatRow { name: keys.activity_stat_names[i].1.clone(), values });
            i += 1;
        }
        let mut selected_accounts: Vec<Selection> = Vec::new();
        let mut k: usize = 0;
        while k < keys.select_accounts_by.len()
            invariant
                k <= keys.select_accounts_by@.len(),
                selected_accounts@.len() == k,
                forall|a: int|
                    0 <= a < k ==> (#[trigger] selected_accounts@[a]).name@ == keys.select_accounts_by@[a].1@
                        && selected_accounts@[a].accounts@.len() == 0,
            decreases keys.select_accounts_by.len() - k,
        {
            selected_accounts.push(
                Selection { name: keys.select_accounts_by[k].1.clone(), accounts: Vec::new() },
            );
            k += 1;
        }
        ActivityStats { stats, selected_accounts }
    }

    /// The value of the statistic labelled `stat` over the window labelled
    /// `window`, if the snapshot has one.
    pub fn stat_value(&self, stat: &String, window: &String) -> (r: Option<u64>)
        ensures
            r matches Some(v) ==> exists|i: int, j: int|
                0 <= i < self.stats@.len() && 0 <= j < self.stats@[i].values@.len()
                    && self.stats@[i].name@ == stat@ && self.stats@[i].values@[j].window@ == window@
                    && #[trigger] self.value(i, j) == v,
            r is None ==> forall|i: int, j: int|
                0 <= i < self.stats@.len() && 0 <= j < self.stats@[i].values@.len()
                    && self.stats@[i].name@ == stat@ ==> (#[trigger] self.stats@[i].values@[j]).window@
                    != window@,
    {
        let mut i: usize = 0;
        while i < self.stats.len()
            invariant
                i <= self.stats@.len(),
                forall|a: int, j: int|
                    0 <= a < i && 0 <= j < self.stats@[a].values@.len() && self.stats@[a].name@ == stat@
                        ==> (#[trigger] self.stats@[a].values@[j]).window@ != window@,
            decreases self.stats.len() - i,
        {
            if self.stats[i].name == *stat {
                let row = &self.stats[i];
                let mut j: usize = 0;
                while j < row.values.len()
                    invariant
                        j <= row.values@.len(),
                        i < self.stats@.len(),
                        *row == self.stats@[i as int],
                        row.name@ == stat@,
                        forall|b: int| 0 <= b < j ==> (#[trigger] row.values@[b]).window@ != window@,
                    decreases row.values.len() - j,
                {
                    if row.values[j].window == *window {
                        assert(self.value(i as int, j as int) == row.values@[j as int].value);
                        return Some(row.values[j].value);
                    }
                    j += 1;
                }
            }
            i += 1;
        }
        None
    }

    /// The accounts of the selection labelled `name`, if the snapshot has it.
    pub fn selected(&self, name: &String) -> (r: Option<&Vec<Account>>)
        ensures
            r matches Some(v) ==> exists|k: int|
                0 <= k < self.selected_accounts@.len() && self.selected_accounts@[k].name@ == name@
                    && #[trigger] self.selection(k) == v@,
            r is None ==> forall|k: int|
                0 <= k < self.selected_accounts@.len() ==> (#[trigger] self.selected_accounts@[k]).name@
                    != name@,
    {
        let mut k: usize = 0;
        while k < self.selected_accounts.len()
            invariant
                k <= self.selected_accounts@.len(),
                forall|a: int| 0 <= a < k ==> (#[trigger] self.selected_accounts@[a]).name@ != name@,
            decreases self.selected_accounts.len() - k,
        {
            if self.selected_accounts[k].name == *name {
                assert(self.selection(k as int) == self.selected_accounts@[k as int].accounts@);
                return Some(&self.selected_accounts[k].accounts);
            }
            k += 1;
        }
        None
    }
}

} // verus!
