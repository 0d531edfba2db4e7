//! The commands and options of the command line, as plain data.

use vstd::prelude::*;

verus! {

/// How a reply is written out.
#[derive(Debug, Clone, Copy, PartialEq, Eq)]
pub enum OutputFormat {
    Json,
    Human,
    Markdown,
}

impl Default for OutputFormat {
    fn default() -> (r: OutputFormat)
        ensures
            r == OutputFormat::Json,
    {
        OutputFormat::Json
    }
}

/// A parsed command line: the global options and the command.
#[derive(Debug, Clone)]
pub struct Cli {
    /// Output format.
    pub format: OutputFormat,
    /// Project slug.
    pub project: Option<String>,
    /// Team slug.
    pub team: Option<String>,
    /// Verbose output.
    pub verbose: bool,
    pub command: Command,
}

/// The commands of the client.
#[allow(inconsistent_fields)]
#[derive(Debug, Clone)]
pub enum Command {
    /// Bootstrap a new project.
    Init { name: String, description: String, brief: Option<String> },
    /// Project overview, or one entity type, or one entity.
    Snapshot { entity_type: Option<String>, id: Option<String> },
    /// Review inferred items and escalations.
    Review { action: Option<ReviewAction>, id: Option<String>, resolution: Option<String> },
    /// Gap analysis and opportunities.
    Next { mode: Option<NextMode>, id: Option<String> },
    /// Audit trail of all actions.
    History {
        event_type: Option<String>,
        entity: Option<String>,
        since: Option<String>,
        limit: usize,
    },
    /// Ideal customer profile operations.
    Icp { action: EntityAction },
    /// Pain point operations.
    PainPoint { action: EntityAction },
    /// Value proposition operations.
    ValueProp { action: EntityAction },
    /// Experiment operations.
    Experiment { action: EntityAction },
    /// Channel operations.
    Channel { action: EntityAction },
    /// Competitor operations.
    Competitor { action: EntityAction },
    /// Contact operations.
    Contact { action: EntityAction },
    /// Manage projects.
    Project { action: ProjectAction },
    /// Manage users.
    User { action: UserAction },
    /// Manage API keys.
    Apikey { action: ApikeyAction },
    /// Credits and usage metering.
    Meter { action: Option<MeterAction> },
    /// Authenticate with the daemon.
    Login { key: Option<String>, url: Option<String> },
    /// Clear stored credentials.
    Logout,
    /// Show current identity.
    Whoami,
    /// Tick the outer loop.
    Tick,
    /// Run an inner loop by ID.
    Loop { id: String },
}

/// Operations on one entity type.
#[derive(Debug, Clone)]
pub enum EntityAction {
    /// List all entities of this type.
    List,
    /// Show a single entity by ID.
    Show { id: String },
    /// Add a new entity; `fields` are `key=value` pairs.
    Add { name: Option<String>, description: Option<String>, fields: Vec<String> },
    /// Edit an existing entity; `fields` are `key=value` pairs.
    Edit { id: String, name: Option<String>, description: Option<String>, fields: Vec<String> },
}

/// What to do with a reviewed item.
#[derive(Debug, Clone, Copy, PartialEq, Eq)]
pub enum ReviewAction {
    Accept,
    Reject,
    Resolve,
    Dismiss,
}

/// The word that names a review action.
pub open spec fn review_action_word(a: ReviewAction) -> Seq<char> {
    match a {
        ReviewAction::Accept => "accept"@,
        ReviewAction::Reject => "reject"@,
        ReviewAction::Resolve => "resolve"@,
        ReviewAction::Dismiss => "dismiss"@,
    }
}

impl ReviewAction {
    /// The word that names this action, as it is displayed.
    pub fn to_string(&self) -> (r: String)
        ensures
            r@ == review_action_word(*self),
    {
        match self {
            ReviewAction::Accept => String::from_str("accept"),
            ReviewAction::Reject => String::from_str("reject"),
            ReviewAction::Resolve => String::from_str("resolve"),
            ReviewAction::Dismiss => String::from_str("dismiss"),
        }
    }
}

/// How `next` hands out an opportunity.
#[derive(Debug, Clone, Copy, PartialEq, Eq)]
pub enum NextMode {
    /// Generate a pasteable LLM prompt for an opportunity.
    Prompt,
    /// Spawn a background agent to work on an opportunity.
    Run,
}

/// User operations.
#[derive(Debug, Clone)]
pub enum UserAction {
    /// Create a new user with their own team.
    Create { email: String, name: String, team: String, team_display: Option<String> },
}

/// API key operations.
#[derive(Debug, Clone)]
pub enum ApikeyAction {
    /// Create an API key for a user.
    Create { user: Option<String>, name: String },
}

/// Metering operations.
#[derive(Debug, Clone)]
pub enum MeterAction {
    /// Show credit balance.
    Balance,
    /// Show credit transaction history.
    History { limit: u32 },
    /// Show available credit packs and pricing.
    Tiers,
}

/// Project operations.
#[allow(inconsistent_fields)]
#[derive(Debug, Clone)]
pub enum ProjectAction {
    /// List all projects.
    List,
    /// Create a new project.
    Create { name: String, description: String, brief: Option<String> },
    /// Update a project's name or description.
    Update { slug: Option<String>, name: Option<String>, description: Option<String> },
    /// Delete a project and all its data.
    Delete { slug: Option<String> },
    /// Set the default project for future commands.
    Switch { slug: String },
}

} // verus!
