//! The records of a configuration profile: its metadata and its scripts, each a
//! list of actions.
use vstd::prelude::*;

verus! {

/// This library's version, recorded in the profiles it generates.
pub const VERSION: &'static str = "0.1.0";

/// A configuration profile.
pub struct Config {
    pub metadata: Metadata,
    pub scripts: Vec<Script>,
}

/// Who made a profile, and which one it is.
pub struct Metadata {
    pub name: String,
    pub version: String,
    pub trx8_version: String,
    pub description: Option<String>,
    pub author: Option<Vec<String>>,
}

/// A named list of actions.
pub struct Script {
    pub name: String,
    pub condition: Option<String>,
    pub description: Option<String>,
    pub actions: Vec<Action>,
}

/// One action: its name selects what it does, its parameters say with what.
pub struct Action {
    pub name: String,
    pub description: Option<String>,
    pub parameters: Option<Vec<String>>,
}

impl Config {
    /// An example profile: one script whose one action echoes a greeting.
    pub fn generate_empty() -> (r: Config)
        ensures
            r.metadata.name@ == "Trx8"@,
            r.metadata.author is None,
            r.metadata.version@ == "0.1.0"@,
            r.metadata.trx8_version@ == VERSION@,
            r.metadata.description matches Some(d) && d@ == "This is an example configuration profile."@,
            r.scripts@.len() == 1,
            r.scripts@[0].name@ == "An example script"@,
            r.scripts@[0].condition is None,
            r.scripts@[0].description matches Some(d) && d@ == "This script does nothing :)"@,
            r.scripts@[0].actions@.len() == 1,
            r.scripts@[0].actions@[0].name@ == "echo"@,
            r.scripts@[0].actions@[0].description matches Some(d)
                && d@ == "Prints Hello, World! to the console because why not?"@,
            r.scripts@[0].actions@[0].parameters matches Some(p) && p@.len() == 1 && p@[0]@ == "Hello, World!"@,
    {
        Config {
            metadata: Metadata {
                name: "Trx8".to_owned(),
                author: None,
                version: "0.1.0".to_owned(),
                trx8_version: VERSION.to_owned(),
                description: Some("This is an example configuration profile.".to_owned()),
            },
            scripts: vec![Script {
                name: "An example script".to_owned(),
                condition: None,
                description: Some("This script does nothing :)".to_owned()),
                actions: vec![Action {
                    name: "echo".to_owned(),
                    description: Some("Prints Hello, World! to the console because why not?".to_owned()),
                    parameters: Some(vec!["Hello, World!".to_owned()]),
                }],
            }],
        }
    }
}

} // verus!
