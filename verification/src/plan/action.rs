//! Canonical step actions. The agent's executor matches on these exact strings.

use vstd::prelude::*;

verus! {

/// Reboot the host. `params`: none.
pub const SYSTEM_REBOOT: &'static str = "system.reboot";

/// Power the host off. `params`: none.
pub const SYSTEM_POWER_OFF: &'static str = "system.power_off";

/// Power the host on (out-of-band). `params`: none.
pub const SYSTEM_POWER_ON: &'static str = "system.power_on";

/// Run a shell command. `params`: `command` (required), optional `cwd`.
pub const COMMAND_RUN: &'static str = "command.run";

/// Ensure a package is present/absent. `params`: `name`, `state`
/// (`present`|`absent`), optional `version`.
pub const PACKAGE_ENSURE: &'static str = "package.ensure";

/// Ensure a service's run/enable state. `params`: `name`, `state`
/// (`started`|`stopped`), `enabled` (`true`|`false`).
pub const SERVICE_ENSURE: &'static str = "service.ensure";

/// Write a file idempotently. `params`: `path`, `content`, optional `mode`
/// (octal, e.g. `0644`), `owner`, `group`.
pub const FILE_WRITE: &'static str = "file.write";

/// Ensure a role's packages/services are present. `params`: `role`.
/// Used only as a fallback for roles without a built-in expansion.
pub const ROLE_PROVISION: &'static str = "role.provision";

/// Fallback passthrough for an intent the planner doesn't specialize.
/// `params`: the intent's params verbatim, plus `intent`.
pub const INTENT_CUSTOM: &'static str = "intent.custom";

} // verus!
