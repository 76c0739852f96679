//! The registry that maps a scan's identifier and version to the scan.

use vstd::prelude::*;
use crate::text::str_eq;
use crate::anom::adf::AdfScan;
use crate::anom::arch_lm::ArchLmScan;
use crate::anom::cusum_break::CusumBreakScan;
use crate::anom::drawdown::DrawdownProfileScan;
use crate::anom::jarque_bera::JarqueBeraScan;
use crate::anom::kpss::KpssScan;
use crate::anom::ljung_box_sq::LjungBoxSqScan;
use crate::anom::meanrev::OuHalfLifeScan;
use crate::anom::outliers::OutliersZAndMadScan;
use crate::anom::returns_profile::ReturnsProfileScan;
use crate::anom::summary::SummaryWelfordScan;
use crate::anom::tsmom::TsmomScan;
use crate::anom::variance_ratio::VarianceRatioScan;
use crate::anom::vol::VolRollingScan;

verus! {

/// One of the anomaly scans, as the registry holds it.
#[derive(PartialEq, Eq, Structural, Clone, Copy, Debug)]
pub enum AnomScan {
    /// [`AdfScan`].
    Adf,
    /// [`ArchLmScan`].
    ArchLm,
    /// [`CusumBreakScan`].
    CusumBreak,
    /// [`DrawdownProfileScan`].
    DrawdownProfile,
    /// [`JarqueBeraScan`].
    JarqueBera,
    /// [`KpssScan`].
    Kpss,
    /// [`LjungBoxSqScan`].
    LjungBoxSq,
    /// [`OuHalfLifeScan`].
    OuHalfLife,
    /// [`OutliersZAndMadScan`].
    OutliersZAndMad,
    /// [`ReturnsProfileScan`].
    ReturnsProfile,
    /// [`SummaryWelfordScan`].
    SummaryWelford,
    /// [`TsmomScan`].
    Tsmom,
    /// [`VarianceRatioScan`].
    VarianceRatio,
    /// [`VolRollingScan`].
    VolRolling,
}

impl AnomScan {
    /// The scan's identifier.
    pub open spec fn spec_id(self) -> Seq<char> {
        match self {
            AnomScan::Adf => "stats.stationarity.adf"@,
            AnomScan::ArchLm => "stats.heteroskedasticity.arch_lm"@,
            AnomScan::CusumBreak => "stats.regime.cusum_break"@,
            AnomScan::DrawdownProfile => "stats.drawdown.profile"@,
            AnomScan::JarqueBera => "stats.normality.jarque_bera"@,
            AnomScan::Kpss => "stats.stationarity.kpss"@,
            AnomScan::LjungBoxSq => "stats.autocorr.ljung_box_sq"@,
            AnomScan::OuHalfLife => "stats.meanrev.ou_halflife"@,
            AnomScan::OutliersZAndMad => "stats.outliers.z_and_mad"@,
            AnomScan::ReturnsProfile => "stats.returns.profile"@,
            AnomScan::SummaryWelford => "stats.summary.welford"@,
            AnomScan::Tsmom => "stats.momentum.tsmom"@,
            AnomScan::VarianceRatio => "stats.variance_ratio.lo_mackinlay"@,
            AnomScan::VolRolling => "stats.vol.rolling"@,
        }
    }

    /// The scan's identifier.
    pub fn id(&self) -> (r: &'static str)
        ensures
            r@ == self.spec_id(),
    {
        match self {
            AnomScan::Adf => AdfScan.id(),
            AnomScan::ArchLm => ArchLmScan.id(),
            AnomScan::CusumBreak => CusumBreakScan.id(),
            AnomScan::DrawdownProfile => DrawdownProfileScan.id(),
            AnomScan::JarqueBera => JarqueBeraScan.id(),
            AnomScan::Kpss => KpssScan.id(),
            AnomScan::LjungBoxSq => LjungBoxSqScan.id(),
            AnomScan::OuHalfLife => OuHalfLifeScan.id(),
            AnomScan::OutliersZAndMad => OutliersZAndMadScan.id(),
            AnomScan::ReturnsProfile => ReturnsProfileScan.id(),
            AnomScan::SummaryWelford => SummaryWelfordScan.id(),
            AnomScan::Tsmom => TsmomScan.id(),
            AnomScan::VarianceRatio => VarianceRatioScan.id(),
            AnomScan::VolRolling => VolRollingScan.id(),
        }
    }

    /// The scan's version.
    pub open spec fn spec_version(self) -> u32 {
        1
    }

    /// The scan's version: every anomaly scan is at version 1.
    pub fn version(&self) -> (r: u32)
        ensures
            r == self.spec_version(),
    {
        1
    }
}

/// The scans registered under an identifier and version.
pub struct Registry {
    scans: Vec<AnomScan>,
}

impl View for Registry {
    type V = Seq<AnomScan>;

    /// The scans in the order they were registered.
    closed spec fn view(&self) -> Seq<AnomScan> {
        self.scans@
    }
}

/// The scan a registry holding `scans` answers for `id` at `version`: the
/// one registered last under that key.
pub open spec fn find_latest(scans: Seq<AnomScan>, id: Seq<char>, version: u32) -> Option<AnomScan>
    decreases scans.len(),
{
    if scans.len() == 0 {
        None
    } else if scans.last().spec_id() == id && scans.last().spec_version() == version {
        Some(scans.last())
    } else {
        find_latest(scans.drop_last(), id, version)
    }
}

impl Registry {
    /// An empty registry.
    pub fn new() -> (r: Registry)
        ensures
            r@ == Seq::<AnomScan>::empty(),
    {
        Registry { scans: Vec::new() }
    }

    /// Register a scan under its identifier and version; it replaces any
    /// scan registered earlier under the same key.
    pub fn register(&mut self, scan: AnomScan)
        ensures
            final(self)@ == old(self)@.push(scan),
    {
        self.scans.push(scan);
    }

    /// The number of registrations made.
    pub fn len(&self) -> (r: usize)
        ensures
            r == self@.len(),
    {
        self.scans.len()
    }

    /// The scan registered last under `id` at `version`, if any.
    pub fn get(&self, id: &str, version: u32) -> (r: Option<AnomScan>)
        ensures
            r == find_latest(self@, id@, version),
    {
        let mut i: usize = self.scans.len();
        assert(self.scans@.take(i as int) =~= self.scans@);
        while i > 0
            invariant
                i <= self.scans@.len(),
                find_latest(self.scans@, id@, version) == find_latest(self.scans@.take(i as int), id@, version),
            decreases i,
        {
            let s = self.scans[i - 1];
            let ghost pre = self.scans@.take(i as int);
            assert(pre.drop_last() =~= self.scans@.take(i - 1));
            if version == s.version() && str_eq(s.id(), id) {
                return Some(s);
            }
            i = i - 1;
        }
        None
    }
}

/// What a registry answers after a registration: the new scan under its
/// own key, and what it answered before under every other key.
pub proof fn lemma_get_after_register(
    before: Seq<AnomScan>,
    scan: AnomScan,
    id: Seq<char>,
    version: u32,
)
    ensures
        find_latest(before.push(scan), scan.spec_id(), scan.spec_version()) == Some(scan),
        !(id == scan.spec_id() && version == scan.spec_version()) ==> find_latest(before.push(scan), id, version)
            == find_latest(before, id, version),
{
    assert(before.push(scan).drop_last() =~= before);
}

/// The anomaly scans that [`crate::anom::register_anom_scans`] registers, in order.
pub open spec fn anom_registrations() -> Seq<AnomScan> {
    seq![
        AnomScan::LjungBoxSq,
        AnomScan::DrawdownProfile,
        AnomScan::ArchLm,
        AnomScan::OuHalfLife,
        AnomScan::Tsmom,
        AnomScan::JarqueBera,
        AnomScan::OutliersZAndMad,
        AnomScan::CusumBreak,
        AnomScan::ReturnsProfile,
        AnomScan::Adf,
        AnomScan::Kpss,
        AnomScan::SummaryWelford,
        AnomScan::VarianceRatio,
        AnomScan::VolRolling,
    ]
}

/// The registered anomaly scans have pairwise distinct identifiers.
pub proof fn lemma_anom_ids_distinct()
    ensures
        forall|i: int, j: int|
            0 <= i < j < anom_registrations().len() ==> anom_registrations()[i].spec_id()
                != anom_registrations()[j].spec_id(),
{
    reveal_strlit("stats.autocorr.ljung_box_sq");
    reveal_strlit("stats.drawdown.profile");
    reveal_strlit("stats.heteroskedasticity.arch_lm");
    reveal_strlit("stats.meanrev.ou_halflife");
    reveal_strlit("stats.momentum.tsmom");
    reveal_strlit("stats.normality.jarque_bera");
    reveal_strlit("stats.outliers.z_and_mad");
    reveal_strlit("stats.regime.cusum_break");
    reveal_strlit("stats.returns.profile");
    reveal_strlit("stats.stationarity.adf");
    reveal_strlit("stats.stationarity.kpss");
    reveal_strlit("stats.summary.welford");
    reveal_strlit("stats.variance_ratio.lo_mackinlay");
    reveal_strlit("stats.vol.rolling");
    assert("stats.autocorr.ljung_box_sq"@.len() == 27 && "stats.drawdown.profile"@.len() == 22
        && "stats.heteroskedasticity.arch_lm"@.len() == 32 && "stats.meanrev.ou_halflife"@.len()
        == 25 && "stats.momentum.tsmom"@.len() == 20 && "stats.normality.jarque_bera"@.len() == 27
        && "stats.outliers.z_and_mad"@.len() == 24 && "stats.regime.cusum_break"@.len() == 24
        && "stats.returns.profile"@.len() == 21 && "stats.stationarity.adf"@.len() == 22
        && "stats.stationarity.kpss"@.len() == 23 && "stats.summary.welford"@.len() == 21
        && "stats.variance_ratio.lo_mackinlay"@.len() == 33 && "stats.vol.rolling"@.len() == 17);
    assert("stats.autocorr.ljung_box_sq"@[6] != "stats.normality.jarque_bera"@[6]);
    assert("stats.drawdown.profile"@[6] != "stats.stationarity.adf"@[6]);
    assert("stats.outliers.z_and_mad"@[6] != "stats.regime.cusum_break"@[6]);
    assert("stats.returns.profile"@[6] != "stats.summary.welford"@[6]);
}

/// `a` comes strictly before `b` in dictionary order of characters: at the
/// first position where they differ, `a` has the smaller character, or `a`
/// is a proper prefix of `b`.
pub open spec fn comes_first(a: Seq<char>, b: Seq<char>) -> bool {
    exists|k: int|
        0 <= k <= a.len() && k <= b.len() && (forall|i: int| 0 <= i < k ==> a[i] == b[i]) && (
        (k == a.len() && k < b.len()) || (k < a.len() && k < b.len() && (a[k] as u32) < (
        b[k] as u32)))
}

/// The anomaly scans are registered in dictionary order of their
/// identifiers: each identifier comes before the next.
pub proof fn lemma_anom_ids_in_order()
    ensures
        forall|i: int|
            0 <= i < anom_registrations().len() - 1 ==> #[trigger] comes_first(
                anom_registrations()[i].spec_id(),
                anom_registrations()[i + 1].spec_id(),
            ),
{
    reveal_strlit("stats.autocorr.ljung_box_sq");
    reveal_strlit("stats.drawdown.profile");
    reveal_strlit("stats.heteroskedasticity.arch_lm");
    reveal_strlit("stats.meanrev.ou_halflife");
    reveal_strlit("stats.momentum.tsmom");
    reveal_strlit("stats.normality.jarque_bera");
    reveal_strlit("stats.outliers.z_and_mad");
    reveal_strlit("stats.regime.cusum_break");
    reveal_strlit("stats.returns.profile");
    reveal_strlit("stats.stationarity.adf");
    reveal_strlit("stats.stationarity.kpss");
    reveal_strlit("stats.summary.welford");
    reveal_strlit("stats.variance_ratio.lo_mackinlay");
    reveal_strlit("stats.vol.rolling");
    let firsts: Seq<int> = seq![6, 6, 6, 7, 6, 6, 6, 8, 6, 19, 7, 6, 7];
    assert forall|i: int| 0 <= i < anom_registrations().len() - 1 implies #[trigger] comes_first(
        anom_registrations()[i].spec_id(),
        anom_registrations()[i + 1].spec_id(),
    ) by {
        let a = anom_registrations()[i].spec_id();
        let b = anom_registrations()[i + 1].spec_id();
        let k = firsts[i];
        assert(0 <= k < a.len() && k < b.len());
        assert(forall|j: int| 0 <= j < k ==> a[j] == b[j]);
        assert((a[k] as u32) < (b[k] as u32));
    }
}

/// Registering scans with distinct identifiers makes each retrievable.
pub proof fn lemma_find_registered(before: Seq<AnomScan>, added: Seq<AnomScan>, k: int)
    requires
        0 <= k < added.len(),
        forall|i: int, j: int| 0 <= i < j < added.len() ==> added[i].spec_id() != added[j].spec_id(),
    ensures
        find_latest(before + added, added[k].spec_id(), 1) == Some(added[k]),
    decreases added.len(),
{
    let all = before + added;
    if k == added.len() - 1 {
        assert(all.last() == added[k]);
    } else {
        let shorter = added.drop_last();
        assert(all.drop_last() =~= before + shorter);
        assert(all.last() == added[added.len() - 1]);
        lemma_find_registered(before, shorter, k);
    }
}

} // verus!
