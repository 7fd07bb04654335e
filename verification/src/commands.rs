//! The subcommands of the command-line tool, as plain data.
//!
//! Paths are carried as strings. The argument-parsing layer builds these
//! values; each command module decides what to do with them.
use vstd::prelude::*;

verus! {

/// Agent management subcommands
#[derive(Debug, Clone, PartialEq, Eq)]
pub enum AgentCommand {
    /// Create a new agent
    Create {
        /// Agent ID
        id: Option<String>,
        /// Agent name
        name: Option<String>,
        /// Agent description
        description: Option<String>,
    },
    /// List all agents
    List,
    /// Get agent details
    Get {
        /// Agent ID
        id: String,
    },
    /// Update an agent
    Update {
        /// Agent ID
        id: String,
        /// Agent name
        name: Option<String>,
        /// Agent description
        description: Option<String>,
    },
    /// Delete an agent
    Delete {
        /// Agent ID
        id: String,
    },
}

/// Capability command options.
#[derive(Debug, Clone, PartialEq, Eq)]
pub enum CapabilityCommand {
    /// Request capability elevation for an agent
    Request {
        /// Agent ID
        agent_id: String,
        /// Capability to request (e.g., "write", "network", "admin")
        capability: String,
        /// Reason for the elevation request
        reason: String,
        /// Duration in seconds (default: 3600 = 1 hour)
        duration: u64,
    },
    /// List active capability elevations
    List {
        /// Output as JSON
        json: bool,
    },
    /// Revoke capability elevation for an agent
    Revoke {
        /// Agent ID
        agent_id: String,
    },
    /// Show elevation history
    History {
        /// Agent ID (optional, shows all if not specified)
        agent_id: Option<String>,
        /// Output as JSON
        json: bool,
    },
}

#[derive(Debug, Clone, PartialEq, Eq)]
pub enum ClipboardCommand {
    /// Send code from clipboard to Radium
    Send,
    /// Receive processed code from Radium to clipboard
    Receive,
}

/// Code block command subcommands.
#[derive(Debug, Clone, PartialEq, Eq)]
pub enum CodeCommand {
    /// List all code blocks for a session
    List {
        /// Session ID (defaults to most recent session)
        session_id: Option<String>,
    },
    /// Copy code blocks to clipboard
    Copy {
        /// Block selection (e.g., "1", "1,3,5", "2..5", "1,3..5,7")
        indexes: String,
        /// Session ID (defaults to most recent session)
        session_id: Option<String>,
    },
    /// Save a code block to a file
    Save {
        /// Block index
        index: usize,
        /// Output file path
        file: String,
        /// Session ID (defaults to most recent session)
        session_id: Option<String>,
    },
    /// Append a code block to a file
    Append {
        /// Block index
        index: usize,
        /// Output file path
        file: String,
        /// Session ID (defaults to most recent session)
        session_id: Option<String>,
    },
}

/// Constitution command options.
#[derive(Debug, Clone, PartialEq, Eq)]
pub enum ConstitutionCommand {
    /// Add or update a rule for a session
    Update {
        /// Session ID
        session_id: String,
        /// Rule text
        rule: String,
    },

    /// Reset all rules for a session
    Reset {
        /// Session ID
        session_id: String,
    },

    /// Get rules for a session
    Get {
        /// Session ID
        session_id: String,
    },

    /// List all active sessions
    List,
}

/// Context command subcommands.
#[derive(Debug, Clone, PartialEq, Eq)]
pub enum ContextCommand {
    /// List all context files in workspace.
    List,
    /// Show which context files would be loaded for a path.
    Show { path: String },
    /// Show current context for a plan.
    ShowContext {
        /// Requirement ID (REQ-XXX)
        req: Option<String>,
    },
    /// Validate all context files.
    Validate,
    /// Validate specific context sources.
    ValidateSources {
        /// Source URIs to validate
        sources: Vec<String>,
    },
    /// Show memory for an agent.
    Memory {
        /// Agent ID (optional, lists all agents if not provided)
        agent_id: Option<String>,
        /// Requirement ID (REQ-XXX)
        req: Option<String>,
    },
    /// List available custom commands.
    Commands,
    /// Initialize a context file from a template.
    Init {
        /// Template type to use (basic, coding-standards, architecture, team-conventions)
        template: String,
        /// Create global context file (~/.radium/GEMINI.md) instead of project file
        global: bool,
        /// Custom path for the context file (defaults to project root)
        path: Option<String>,
    },
}

/// Cost reporting command.
#[derive(Debug, Clone, PartialEq, Eq)]
pub enum CostCommand {
    /// Generate cost report with tier breakdown
    Report {
        /// Plan/requirement ID to filter by (e.g., REQ-123)
        plan: Option<String>,

        /// Workflow ID to filter by
        workflow: Option<String>,

        /// Start date (ISO 8601 format, e.g., 2024-01-01T00:00:00Z)
        start: Option<String>,

        /// End date (ISO 8601 format, e.g., 2024-01-31T23:59:59Z)
        end: Option<String>,

        /// Output format (csv, json, markdown)
        format: String,

        /// Output file path (optional, defaults to stdout)
        output: Option<String>,
    },
}

/// Hook command options.
#[derive(Debug, Clone, PartialEq, Eq)]
pub enum HooksCommand {
    /// List all registered hooks
    List {
        /// Filter by hook type
        hook_type: Option<String>,

        /// Output as JSON
        json: bool,

        /// Show detailed information
        verbose: bool,
    },

    /// Show detailed information about a specific hook
    Info {
        /// Hook name
        name: String,

        /// Output as JSON
        json: bool,
    },

    /// Enable a hook
    Enable {
        /// Hook name
        name: String,
    },

    /// Disable a hook
    Disable {
        /// Hook name
        name: String,
    },
}

/// Learning subcommands
#[derive(Debug, Clone, PartialEq, Eq)]
pub enum LearningCommand {
    /// List all learning entries
    List {
        /// Filter by category
        category: Option<String>,

        /// Output as JSON
        json: bool,
    },

    /// Add a mistake entry
    AddMistake {
        /// Category for the mistake
        category: String,

        /// Description of the mistake
        description: String,

        /// Solution or explanation
        solution: String,
    },

    /// Add a skill to the skillbook
    AddSkill {
        /// Section for the skill
        section: String,

        /// Content/description of the skill
        content: String,
    },

    /// Tag a skill as helpful, harmful, or neutral
    TagSkill {
        /// Skill ID to tag
        skill_id: String,

        /// Tag type (helpful, harmful, or neutral)
        tag: String,

        /// Increment amount (default: 1)
        increment: u32,
    },

    /// Show skillbook by section
    ShowSkillbook {
        /// Section to show (optional, shows all if not specified)
        section: Option<String>,

        /// Output as JSON
        json: bool,
    },

    /// View routing quality metrics (Phase 2 - REQ-246)
    Metrics {
        /// Export to JSON file
        export: Option<String>,

        /// Show detailed per-agent metrics
        detailed: bool,

        /// Output as JSON
        json: bool,
    },
}

/// MCP command options.
#[derive(Debug, Clone, PartialEq, Eq)]
pub enum McpCommand {
    /// List configured MCP servers
    List,
    /// List tools from MCP servers
    Tools {
        /// Server name (optional, lists all if not specified)
        server: Option<String>,
    },
    /// Test connection to MCP servers
    Test {
        /// Server name (optional, tests all if not specified)
        server: Option<String>,
    },
    /// OAuth authentication commands
    Auth {
        subcommand: AuthSubcommand,
    },
    /// List available MCP prompts (slash commands)
    Prompts,
    /// Interactive setup wizard for configuring MCP servers
    Setup,
}

/// OAuth authentication subcommands.
#[derive(Debug, Clone, PartialEq, Eq)]
pub enum AuthSubcommand {
    /// Show OAuth token status for configured servers
    Status {
        /// Server name (optional, shows all if not specified)
        server: Option<String>,
    },
}

/// MCP proxy command options.
#[derive(Debug, Clone, PartialEq, Eq)]
pub enum McpProxyCommand {
    /// Initialize proxy configuration
    Init,
    /// Start the proxy server
    Start,
    /// Stop the proxy server
    Stop,
    /// Check proxy server status
    Status,
}

/// Monitoring subcommands
#[derive(Debug, Clone, PartialEq, Eq)]
pub enum MonitorCommand {
    /// Show agent status
    Status {
        /// Agent ID (optional, shows all if not specified)
        agent_id: Option<String>,
        /// Output as JSON
        json: bool,
    },
    /// List all agents
    List {
        /// Filter by status (starting, running, completed, failed, terminated)
        status: Option<String>,
        /// Output as JSON
        json: bool,
    },
    /// Show telemetry and cost information
    Telemetry {
        /// Agent ID (optional, shows all if not specified)
        agent_id: Option<String>,
        /// Output as JSON
        json: bool,
        /// Show tool execution details
        show_tools: bool,
        /// Filter by tool name
        tool: Option<String>,
    },
    /// Show agent usage analytics
    Usage {
        /// Agent ID (optional, shows all if not specified)
        agent_id: Option<String>,
        /// Filter by category
        category: Option<String>,
        /// Minimum execution count
        min_executions: Option<u64>,
        /// Output as JSON
        json: bool,
    },
}

/// Orchestrator management subcommands
#[derive(Debug, Clone, PartialEq, Eq)]
pub enum OrchestratorCommand {
    /// Register an agent
    Register {
        /// Agent ID
        agent_id: String,
        /// Agent type (echo, simple, chat)
        agent_type: String,
        /// Agent description
        description: Option<String>,
    },
    /// Execute an agent
    Execute {
        /// Agent ID
        agent_id: String,
        /// Input for the agent
        input: String,
        /// Model type (mock, gemini, openai)
        model_type: Option<String>,
        /// Model ID
        model_id: Option<String>,
    },
    /// List registered agents
    List,
    /// Start an agent
    Start {
        /// Agent ID
        agent_id: String,
    },
    /// Stop an agent
    Stop {
        /// Agent ID
        agent_id: String,
    },
}

/// Playbook command options.
#[derive(Debug, Clone, PartialEq, Eq)]
pub enum PlaybookCommand {
    /// List all available playbooks
    List {
        /// Filter by scope (e.g., requirement, task, pr-review)
        scope: Option<String>,

        /// Filter by priority (required, recommended, optional)
        priority: Option<String>,

        /// Filter by tag(s) (comma-separated)
        tag: Option<String>,

        /// List playbooks from Braingrid instead of local
        remote: bool,

        /// Braingrid project ID (required for --remote)
        project_id: Option<String>,

        /// Output as JSON
        json: bool,
    },

    /// Apply/install a playbook from file
    Apply {
        /// Path to playbook file
        file: String,
    },

    /// Delete a playbook by URI
    Delete {
        /// Playbook URI (e.g., radium://org/playbook.md)
        uri: String,
    },

    /// Search playbooks by tag(s)
    Search {
        /// Tag(s) to search for (comma-separated)
        tags: String,

        /// Search playbooks from Braingrid instead of local
        remote: bool,

        /// Braingrid project ID (required for --remote)
        project_id: Option<String>,

        /// Output as JSON
        json: bool,
    },

    /// Sync playbooks between local and Braingrid
    Sync {
        /// Braingrid project ID
        project_id: Option<String>,

        /// Upload local playbooks to Braingrid (default: download only)
        upload: bool,
    },
}

/// Policy command options.
#[derive(Debug, Clone, PartialEq, Eq)]
pub enum PolicyCommand {
    /// List all loaded policy rules
    List {
        /// Output as JSON
        json: bool,

        /// Show detailed information
        verbose: bool,
    },

    /// Test policy evaluation for a tool
    Check {
        /// Tool name to check
        tool_name: String,

        /// Tool arguments (space-separated)
        args: Vec<String>,

        /// Output as JSON
        json: bool,
    },

    /// Validate policy.toml syntax
    Validate {
        /// Path to policy file (default: .radium/policy.toml)
        file: Option<String>,
    },

    /// Create default policy.toml template
    Init {
        /// Overwrite existing file
        force: bool,
    },

    /// Add a new policy rule
    Add {
        /// Rule name
        name: String,
        /// Priority (admin, user, default)
        priority: Option<String>,
        /// Action (allow, deny, ask_user)
        action: Option<String>,
        /// Tool pattern (glob pattern)
        tool_pattern: Option<String>,
        /// Argument pattern (optional)
        arg_pattern: Option<String>,
        /// Reason for the rule
        reason: Option<String>,
    },

    /// Remove a policy rule by name
    Remove {
        /// Rule name to remove
        name: String,
    },
}

/// Privacy command subcommands.
#[derive(Debug, Clone, PartialEq, Eq)]
pub enum PrivacyCommand {
    /// Check a file for sensitive data.
    ///
    /// Scans the specified file for sensitive data patterns and reports findings.
    /// Exit code: 0 if no sensitive data found, 2 if sensitive data found, 1 on error.
    Check {
        /// Path to file to check
        file: String,
    },
    /// Test a custom regex pattern.
    ///
    /// Validates a regex pattern and tests it against sample text.
    /// If no text is provided, reads from stdin.
    TestPattern {
        /// Regex pattern to test
        pattern: String,
        /// Sample text to test against (optional, reads from stdin if not provided)
        text: Option<String>,
    },
}

/// Requirement command subcommands.
#[derive(Debug, Clone, PartialEq, Eq)]
pub enum RequirementCommand {
    /// Execute a requirement (default if no subcommand)
    Execute {
        /// Braingrid requirement ID (e.g., "REQ-173")
        req_id: Option<String>,

        /// Braingrid project ID (defaults to BRAINGRID_PROJECT_ID env var or PROJ-14)
        project: Option<String>,

        /// List all requirements for the project
        ls: bool,

        /// Maximum number of concurrent task executions (default: 3)
        parallel: usize,

        /// Show execution plan without running tasks
        dry_run: bool,

        /// Resume from last checkpoint if execution was interrupted
        resume: bool,

        /// Fail if no tasks exist instead of triggering breakdown
        skip_breakdown: bool,
    },
    /// Resume an interrupted requirement execution
    Resume {
        /// Braingrid requirement ID (e.g., "REQ-173")
        req_id: String,

        /// Braingrid project ID (defaults to BRAINGRID_PROJECT_ID env var or PROJ-14)
        project: Option<String>,

        /// Restore to a specific checkpoint before resuming
        from_checkpoint: Option<String>,
    },
}

} // verus!
