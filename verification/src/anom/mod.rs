//! The single-instrument anomaly scans and their registration.

pub mod adf;
pub mod arch_lm;
pub mod cusum_break;
pub mod drawdown;
pub mod jarque_bera;
pub mod kpss;
pub mod ljung_box_sq;
pub mod meanrev;
pub mod outliers;
pub mod returns_profile;
pub mod segmentation;
pub mod summary;
pub mod tsmom;
pub mod underwater;
pub mod variance_ratio;
pub mod vol;

use vstd::prelude::*;
use crate::registry::{anom_registrations, find_latest, lemma_anom_ids_distinct, lemma_find_registered, AnomScan, Registry};

verus! {

/// Register the fourteen anomaly scans of the catalogue, in dictionary
/// order of their identifiers (the order [`anom_registrations`] lists them;
/// see [`crate::registry::lemma_anom_ids_in_order`]); afterwards each is
/// found under its identifier at version 1.
pub fn register_anom_scans(r: &mut Registry)
    ensures
        final(r)@ == old(r)@ + anom_registrations(),
        forall|k: int|
            0 <= k < anom_registrations().len() ==> find_latest(
                final(r)@,
                #[trigger] anom_registrations()[k].spec_id(),
                1,
            ) == Some(anom_registrations()[k]),
{
    r.register(AnomScan::LjungBoxSq);
    r.register(AnomScan::DrawdownProfile);
    r.register(AnomScan::ArchLm);
    r.register(AnomScan::OuHalfLife);
    r.register(AnomScan::Tsmom);
    r.register(AnomScan::JarqueBera);
    r.register(AnomScan::OutliersZAndMad);
    r.register(AnomScan::CusumBreak);
    r.register(AnomScan::ReturnsProfile);
    r.register(AnomScan::Adf);
    r.register(AnomScan::Kpss);
    r.register(AnomScan::SummaryWelford);
    r.register(AnomScan::VarianceRatio);
    r.register(AnomScan::VolRolling);
    assert(r@ =~= old(r)@ + anom_registrations());
    proof {
        lemma_anom_ids_distinct();
        assert forall|k: int| 0 <= k < anom_registrations().len() implies find_latest(
            r@,
            #[trigger] anom_registrations()[k].spec_id(),
            1,
        ) == Some(anom_registrations()[k]) by {
            lemma_find_registered(old(r)@, anom_registrations(), k);
        }
    }
}

} // verus!
