//! The command line as plain data: global options and the chosen command.

use vstd::prelude::*;

verus! {

/// The command chosen on the command line, with its own options.
#[derive(Debug, Clone)]
pub enum Commands {
    /// Create a new site from the template.
    Init {
        /// Directory of the new site, relative to the root.
        name: Option<String>,
    },
    /// Build the site.
    Build {},
    /// Build the site, serve it, and rebuild on change.
    Serve {
        /// Interface to bind.
        interface: Option<String>,
        /// Port to listen on.
        port: Option<u16>,
        /// Whether to watch the sources for changes.
        watch: Option<bool>,
    },
    /// Build the site and publish it.
    Deploy {
        /// Whether to overwrite the remote branch.
        force: Option<bool>,
    },
}

/// Global options and the chosen command.
#[derive(Debug, Clone)]
pub struct Cli {
    /// Root directory of the project.
    pub root: Option<String>,
    /// Output directory, relative to the root.
    pub output: Option<String>,
    /// Content directory, relative to the root.
    pub content: Option<String>,
    /// Assets directory, relative to the root.
    pub assets: Option<String>,
    /// Configuration file, relative to the root.
    pub config: String,
    /// Whether to minify the pages.
    pub minify: Option<bool>,
    /// Whether to run the CSS build tool.
    pub tailwind: Option<bool>,
    /// The chosen command.
    pub command: Commands,
}

impl Cli {
    /// Tells whether the command creates a new site.
    pub fn is_init(&self) -> (b: bool)
        ensures
            b == (self.command is Init),
    {
        match self.command {
            Commands::Init { .. } => true,
            _ => false,
        }
    }

    /// Tells whether the command builds the site.
    pub fn is_build(&self) -> (b: bool)
        ensures
            b == (self.command is Build),
    {
        match self.command {
            Commands::Build { .. } => true,
            _ => false,
        }
    }

    /// Tells whether the command serves the site.
    pub fn is_serve(&self) -> (b: bool)
        ensures
            b == (self.command is Serve),
    {
        match self.command {
            Commands::Serve { .. } => true,
            _ => false,
        }
    }

    /// Tells whether the command publishes the site.
    pub fn is_deploy(&self) -> (b: bool)
        ensures
            b == (self.command is Deploy),
    {
        match self.command {
            Commands::Deploy { .. } => true,
            _ => false,
        }
    }
}

} // verus!
