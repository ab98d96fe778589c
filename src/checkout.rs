use vstd::prelude::*;

verus! {

/// Where HEAD stands: attached to a branch, or detached at a commit id.
#[derive(Debug)]
pub enum HeadState {
    OnBranch(String),
    Detached(String),
}

/// What a checkout is asked to move to.
#[derive(Debug)]
pub enum CheckoutTarget {
    Branch(String),
    Commit(String),
    Tag(String),
}

pub open spec fn target_label(t: CheckoutTarget) -> String {
    match t {
        CheckoutTarget::Branch(n) => n,
        CheckoutTarget::Commit(n) => n,
        CheckoutTarget::Tag(n) => n,
    }
}

impl CheckoutTarget {
    /// The name or id that the target is given by.
    pub fn label(&self) -> (r: &String)
        ensures
            *r == target_label(*self),
    {
        match self {
            CheckoutTarget::Branch(n) => n,
            CheckoutTarget::Commit(n) => n,
            CheckoutTarget::Tag(n) => n,
        }
    }
}

pub open spec fn head_after_spec(target: CheckoutTarget, commit_id: String) -> HeadState {
    match target {
        CheckoutTarget::Branch(n) => HeadState::OnBranch(n),
        _ => HeadState::Detached(commit_id),
    }
}

/// The state after a checkout of `target` whose commit is `commit_id`: only
/// a branch checkout attaches HEAD; a commit or a tag detaches it.
pub fn head_after(target: &CheckoutTarget, commit_id: String) -> (r: HeadState)
    ensures
        r == head_after_spec(*target, commit_id),
{
    match target {
        CheckoutTarget::Branch(n) => HeadState::OnBranch(n.clone()),
        _ => HeadState::Detached(commit_id),
    }
}

/// No checkout but one of a branch ends on a branch.
pub proof fn law_only_branch_checkout_attaches(target: CheckoutTarget, commit_id: String)
    ensures
        head_after_spec(target, commit_id) is OnBranch <==> target is Branch,
        target is Branch ==> head_after_spec(target, commit_id) == HeadState::OnBranch(
            target->Branch_0,
        ),
{
}

} // verus!
