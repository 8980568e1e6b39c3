//! Candidates for selection and the trusted directives that come with them.

use vstd::prelude::*;

use crate::context::node::{ContextNode, NodeModel};
use crate::text::{blank, is_blank, joined};

verus! {

/// Trusted, ephemeral compiler directive.
#[derive(Debug)]
pub enum ContextDirective {
    Ranked,
    UserPinned,
    PolicyRequired { reason: String },
}

/// The model of a directive.
pub enum DirectiveModel {
    Ranked,
    UserPinned,
    PolicyRequired { reason: Seq<char> },
}

impl View for ContextDirective {
    type V = DirectiveModel;

    open spec fn view(&self) -> DirectiveModel {
        match self {
            ContextDirective::Ranked => DirectiveModel::Ranked,
            ContextDirective::UserPinned => DirectiveModel::UserPinned,
            ContextDirective::PolicyRequired { reason } => DirectiveModel::PolicyRequired {
                reason: reason@,
            },
        }
    }
}

impl Clone for ContextDirective {
    fn clone(&self) -> (r: ContextDirective)
        ensures
            r@ == self@,
    {
        match self {
            ContextDirective::Ranked => ContextDirective::Ranked,
            ContextDirective::UserPinned => ContextDirective::UserPinned,
            ContextDirective::PolicyRequired { reason } => ContextDirective::PolicyRequired {
                reason: reason.clone(),
            },
        }
    }
}

impl DirectiveModel {
    /// Policy before the user, the user before relevance.
    pub open spec fn rank(self) -> u8 {
        match self {
            DirectiveModel::Ranked => 0,
            DirectiveModel::UserPinned => 1,
            DirectiveModel::PolicyRequired { .. } => 2,
        }
    }

    /// The reason that a receipt gives for the directive.
    pub open spec fn reason_text(self) -> Seq<char> {
        match self {
            DirectiveModel::Ranked => "task-relevance"@,
            DirectiveModel::UserPinned => "user-pinned"@,
            DirectiveModel::PolicyRequired { reason } => "policy-required: "@ + reason,
        }
    }

    /// The candidate must be included whatever its relevance.
    pub open spec fn required(self) -> bool {
        !(self is Ranked)
    }

    /// A policy gives a reason that is not blank.
    pub open spec fn well_formed(self) -> bool {
        self matches DirectiveModel::PolicyRequired { reason } ==> !blank(reason)
    }
}

impl ContextDirective {
    /// The place of the directive in the selection order.
    pub fn priority(&self) -> (r: u8)
        ensures
            r == self@.rank(),
    {
        match self {
            ContextDirective::Ranked => 0,
            ContextDirective::UserPinned => 1,
            ContextDirective::PolicyRequired { reason } => 2,
        }
    }

    /// The reason written into the receipt.
    pub fn receipt_reason(&self) -> (s: String)
        ensures
            s@ == self@.reason_text(),
    {
        match self {
            ContextDirective::Ranked => "task-relevance".to_owned(),
            ContextDirective::UserPinned => "user-pinned".to_owned(),
            ContextDirective::PolicyRequired { reason } => joined("policy-required: ", reason),
        }
    }

    pub fn is_required(&self) -> (r: bool)
        ensures
            r == self@.required(),
    {
        match self {
            ContextDirective::Ranked => false,
            ContextDirective::UserPinned => true,
            ContextDirective::PolicyRequired { reason } => true,
        }
    }

    /// Whether a policy directive gives a reason.
    pub fn is_well_formed(&self) -> (r: bool)
        ensures
            r == self@.well_formed(),
    {
        match self {
            ContextDirective::PolicyRequired { reason } => !is_blank(reason),
            _ => true,
        }
    }
}

/// A node offered for selection.
#[derive(Debug, Clone)]
pub struct ContextCandidate {
    pub node: ContextNode,
    pub directive: ContextDirective,
}

/// The model of a candidate.
pub struct CandidateModel {
    pub node: NodeModel,
    pub directive: DirectiveModel,
}

impl View for ContextCandidate {
    type V = CandidateModel;

    open spec fn view(&self) -> CandidateModel {
        CandidateModel { node: self.node@, directive: self.directive@ }
    }
}

impl ContextCandidate {
    pub fn ranked(node: ContextNode) -> (r: ContextCandidate)
        ensures
            r@ == (CandidateModel { node: node@, directive: DirectiveModel::Ranked }),
    {
        ContextCandidate { node, directive: ContextDirective::Ranked }
    }

    pub fn user_pinned(node: ContextNode) -> (r: ContextCandidate)
        ensures
            r@ == (CandidateModel { node: node@, directive: DirectiveModel::UserPinned }),
    {
        ContextCandidate { node, directive: ContextDirective::UserPinned }
    }

    pub fn policy_required(node: ContextNode, reason: String) -> (r: ContextCandidate)
        ensures
            r@ == (CandidateModel {
                node: node@,
                directive: DirectiveModel::PolicyRequired { reason: reason@ },
            }),
    {
        ContextCandidate { node, directive: ContextDirective::PolicyRequired { reason } }
    }
}

/// The models of a list of candidates.
pub open spec fn candidates_view(candidates: Seq<ContextCandidate>) -> Seq<CandidateModel> {
    candidates.map_values(|c: ContextCandidate| c@)
}

} // verus!
