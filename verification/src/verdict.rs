//! The verdict on a commit: what fired, what of it is acknowledged, and the exit
//! class.

use vstd::prelude::*;

use crate::ack::{
    acked, exit_class, exit_class_of, extract_acks, message_acks, partition_ack, unacked, Ack,
    AckModel,
};
use crate::detect::{Fired, FiredModel};

verus! {

/// The verdict on a commit.
pub struct Verdict {
    pub fired: Vec<Fired>,
    pub acked: Vec<Fired>,
    pub unacked: Vec<Fired>,
    pub exit_class: i32,
}

/// The mathematical value of a `Verdict`.
#[verifier::ext_equal]
pub struct VerdictModel {
    pub fired: Seq<FiredModel>,
    pub acked: Seq<FiredModel>,
    pub unacked: Seq<FiredModel>,
    pub exit_class: i32,
}

impl DeepView for Verdict {
    type V = VerdictModel;

    open spec fn deep_view(&self) -> VerdictModel {
        VerdictModel {
            fired: self.fired.deep_view(),
            acked: self.acked.deep_view(),
            unacked: self.unacked.deep_view(),
            exit_class: self.exit_class,
        }
    }
}

/// The verdict on what fired, given the acknowledgements.
pub open spec fn verdict_on(fired: Seq<FiredModel>, acks: Seq<AckModel>) -> VerdictModel {
    VerdictModel {
        fired,
        acked: acked(fired, acks),
        unacked: unacked(fired, acks),
        exit_class: exit_class_of(fired.len(), unacked(fired, acks).len()),
    }
}

/// Copies of the fires, in order.
fn clone_fires(fires: &Vec<&Fired>) -> (r: Vec<Fired>)
    ensures
        r.deep_view() == fires.deep_view(),
{
    let mut out: Vec<Fired> = Vec::new();
    let mut i: usize = 0;
    while i < fires.len()
        invariant
            i <= fires@.len(),
            out@.len() == i,
            forall|j: int| 0 <= j < i ==> (#[trigger] out@[j]).deep_view() == fires@[j].deep_view(),
        decreases fires@.len() - i,
    {
        let fired: &Fired = fires[i];
        out.push(fired.clone());
        i += 1;
    }
    assert(out.deep_view() =~= fires.deep_view());
    out
}

/// Gives the verdict on what fired, given the acknowledgements.
pub fn judge(fired: Vec<Fired>, acks: &[Ack]) -> (r: Verdict)
    ensures
        r.deep_view() == verdict_on(fired.deep_view(), acks.deep_view()),
{
    let fires = fired.as_slice();
    assert(fires.deep_view() =~= fired.deep_view());
    let (yes, no) = partition_ack(fires, acks);
    assert(no@.len() == no.deep_view().len());
    let class = exit_class(fired.len(), no.len());
    let acked = clone_fires(&yes);
    let unacked = clone_fires(&no);
    Verdict { fired, acked, unacked, exit_class: class }
}

/// Gives the verdict on what fired, given the commit message.
pub fn judge_message(fired: Vec<Fired>, commit_msg: &str) -> (r: Verdict)
    ensures
        r.deep_view() == verdict_on(fired.deep_view(), message_acks(commit_msg@)),
{
    let found = extract_acks(commit_msg);
    let acks = found.as_slice();
    assert(acks.deep_view() =~= found.deep_view());
    judge(fired, acks)
}

} // verus!
