use vstd::prelude::*;

verus! {

/// Resource limits that bound how much work a single parse may do.
#[derive(Debug, Clone, Copy, PartialEq, Eq)]
pub struct ParseLimits {
    pub max_command_bytes: usize,
    pub max_nodes: usize,
    pub max_commands: usize,
    pub max_depth: usize,
    pub parse_timeout_micros: u64,
}

/// Depth ceiling that applies whatever the configured `max_depth` is.
pub const HARD_MAX_DEPTH: usize = 512;

/// Node-count ceiling that applies whatever the configured `max_nodes` is.
pub const HARD_MAX_NODES: usize = 1_000_000;

impl Default for ParseLimits {
    fn default() -> (limits: Self)
        ensures
            limits == ParseLimits::spec_default(),
    {
        ParseLimits {
            max_command_bytes: 10_000,
            max_nodes: 50_000,
            max_commands: 1_024,
            max_depth: 256,
            parse_timeout_micros: 50_000,
        }
    }
}

impl ParseLimits {
    /// The limits used by `BashGate::default()` and the top-level `parse`.
    pub open spec fn spec_default() -> ParseLimits {
        ParseLimits {
            max_command_bytes: 10_000,
            max_nodes: 50_000,
            max_commands: 1_024,
            max_depth: 256,
            parse_timeout_micros: 50_000,
        }
    }

    pub open spec fn spec_effective_max_depth(self) -> usize {
        if self.max_depth <= HARD_MAX_DEPTH { self.max_depth } else { HARD_MAX_DEPTH }
    }

    pub open spec fn spec_effective_max_nodes(self) -> usize {
        if self.max_nodes <= HARD_MAX_NODES { self.max_nodes } else { HARD_MAX_NODES }
    }

    pub open spec fn spec_effective_timeout_micros(self) -> u64 {
        if self.parse_timeout_micros >= 1 { self.parse_timeout_micros } else { 1 }
    }

    /// The configured depth limit, capped at `HARD_MAX_DEPTH`.
    #[verifier::when_used_as_spec(spec_effective_max_depth)]
    pub fn effective_max_depth(self) -> (depth: usize)
        ensures
            depth == self.spec_effective_max_depth(),
    {
        if self.max_depth <= HARD_MAX_DEPTH { self.max_depth } else { HARD_MAX_DEPTH }
    }

    /// The configured node limit, capped at `HARD_MAX_NODES`.
    #[verifier::when_used_as_spec(spec_effective_max_nodes)]
    pub fn effective_max_nodes(self) -> (nodes: usize)
        ensures
            nodes == self.spec_effective_max_nodes(),
    {
        if self.max_nodes <= HARD_MAX_NODES { self.max_nodes } else { HARD_MAX_NODES }
    }

    /// The configured parser timeout, raised to at least one microsecond.
    #[verifier::when_used_as_spec(spec_effective_timeout_micros)]
    pub fn effective_timeout_micros(self) -> (micros: u64)
        ensures
            micros == self.spec_effective_timeout_micros(),
    {
        if self.parse_timeout_micros >= 1 { self.parse_timeout_micros } else { 1 }
    }
}

} // verus!
