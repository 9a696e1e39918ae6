//! The settings of a verification.

use vstd::prelude::*;

use crate::text::check_token;
use crate::text::contains_char;
use crate::text::is_token;

verus! {

/// The pause after each command that is used where none is chosen, in
/// milliseconds.
pub const DEFAULT_INTER_COMMAND_DELAY_MS: u64 = 100;

/// How a verification is carried out.
#[derive(Debug, PartialEq, Eq)]
pub struct VerificationPolicy {
    per_command_timeout_ms: u64,
    inter_command_delay_ms: u64,
    probe_sender_address: String,
    probe_identity: String,
    max_exchangers_to_try: usize,
}

/// A policy as a mathematical value.
pub struct PolicyView {
    /// How long to wait for the reply to one command, in milliseconds.
    pub per_command_timeout_ms: u64,
    /// How long to pause after each command, in milliseconds.
    pub inter_command_delay_ms: u64,
    /// The address named in `MAIL FROM`; empty for the null sender.
    pub probe_sender_address: Seq<char>,
    /// The name given in `EHLO` and `HELO`.
    pub probe_identity: Seq<char>,
    /// How many exchangers of one domain are tried at most.
    pub max_exchangers_to_try: usize,
}

impl PolicyView {
    /// A usable policy: the timeout is positive, at least one exchanger may
    /// be tried, the identity is a non-empty token, and the sender is a token
    /// without angle brackets.
    pub open spec fn well_formed(self) -> bool {
        &&& self.per_command_timeout_ms > 0
        &&& self.max_exchangers_to_try >= 1
        &&& self.probe_identity.len() > 0
        &&& is_token(self.probe_identity)
        &&& is_token(self.probe_sender_address)
        &&& !self.probe_sender_address.contains('<')
        &&& !self.probe_sender_address.contains('>')
    }
}

impl View for VerificationPolicy {
    type V = PolicyView;

    closed spec fn view(&self) -> PolicyView {
        PolicyView {
            per_command_timeout_ms: self.per_command_timeout_ms,
            inter_command_delay_ms: self.inter_command_delay_ms,
            probe_sender_address: self.probe_sender_address@,
            probe_identity: self.probe_identity@,
            max_exchangers_to_try: self.max_exchangers_to_try,
        }
    }
}

impl Clone for VerificationPolicy {
    fn clone(&self) -> (copy: Self)
        ensures
            copy@ == self@,
    {
        proof {
            use_type_invariant(self);
        }
        VerificationPolicy {
            per_command_timeout_ms: self.per_command_timeout_ms,
            inter_command_delay_ms: self.inter_command_delay_ms,
            probe_sender_address: self.probe_sender_address.clone(),
            probe_identity: self.probe_identity.clone(),
            max_exchangers_to_try: self.max_exchangers_to_try,
        }
    }
}

impl VerificationPolicy {
    /// Makes a policy of the five settings, if they are usable.
    pub fn new(
        per_command_timeout_ms: u64,
        inter_command_delay_ms: u64,
        probe_sender_address: &str,
        probe_identity: &str,
        max_exchangers_to_try: usize,
    ) -> (policy: Option<VerificationPolicy>)
        ensures
            policy is Some <==> (PolicyView {
                per_command_timeout_ms,
                inter_command_delay_ms,
                probe_sender_address: probe_sender_address@,
                probe_identity: probe_identity@,
                max_exchangers_to_try,
            }).well_formed(),
            policy matches Some(p) ==> p@ == (PolicyView {
                per_command_timeout_ms,
                inter_command_delay_ms,
                probe_sender_address: probe_sender_address@,
                probe_identity: probe_identity@,
                max_exchangers_to_try,
            }),
    {
        if per_command_timeout_ms == 0 || max_exchangers_to_try == 0 {
            return None;
        }
        if probe_identity.is_empty() || !check_token(probe_identity) {
            return None;
        }
        if !check_token(probe_sender_address) || contains_char(probe_sender_address, '<')
            || contains_char(probe_sender_address, '>') {
            return None;
        }
        Some(
            VerificationPolicy {
                per_command_timeout_ms,
                inter_command_delay_ms,
                probe_sender_address: probe_sender_address.to_owned(),
                probe_identity: probe_identity.to_owned(),
                max_exchangers_to_try,
            },
        )
    }

    /// How long to wait for the reply to one command, in milliseconds.
    pub fn per_command_timeout_ms(&self) -> (ms: u64)
        ensures
            ms == self@.per_command_timeout_ms,
            self@.well_formed(),
    {
        proof {
            use_type_invariant(self);
        }
        self.per_command_timeout_ms
    }

    /// How long to pause after each command, in milliseconds.
    pub fn inter_command_delay_ms(&self) -> (ms: u64)
        ensures
            ms == self@.inter_command_delay_ms,
    {
        self.inter_command_delay_ms
    }

    /// The address named in `MAIL FROM`.
    pub fn probe_sender_address(&self) -> (sender: &str)
        ensures
            sender@ == self@.probe_sender_address,
            self@.well_formed(),
    {
        proof {
            use_type_invariant(self);
        }
        self.probe_sender_address.as_str()
    }

    /// The name given in `EHLO` and `HELO`.
    pub fn probe_identity(&self) -> (identity: &str)
        ensures
            identity@ == self@.probe_identity,
            self@.well_formed(),
    {
        proof {
            use_type_invariant(self);
        }
        self.probe_identity.as_str()
    }

    /// How many exchangers of one domain are tried at most.
    pub fn max_exchangers_to_try(&self) -> (limit: usize)
        ensures
            limit == self@.max_exchangers_to_try,
            limit >= 1,
    {
        proof {
            use_type_invariant(self);
        }
        self.max_exchangers_to_try
    }

    #[verifier::type_invariant]
    spec fn valid(&self) -> bool {
        self@.well_formed()
    }
}

} // verus!
