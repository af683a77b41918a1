//! The settings of the shipper, fixed once at startup.

use vstd::prelude::*;
use vstd::string::*;

verus! {

/// Settings of the shipper. They are read once and never change afterwards.
#[derive(Clone, Debug, PartialEq, Eq)]
pub struct Configuration {
    /// Log group that the events go to.
    pub log_group_name: String,
    /// Log stream, within the group, that the events go to.
    pub log_stream_name: String,
    /// In debug mode every event is uploaded on its own and progress is
    /// reported.
    pub is_debug_mode_enabled: bool,
}

/// Log group that is used when none is configured.
pub open spec fn default_log_group_name() -> Seq<char> {
    "journald-to-cloudwatch"@
}

/// Log stream that is used when the instance cannot be identified.
pub open spec fn unknown_log_stream_name() -> Seq<char> {
    "unknown"@
}

/// The log stream name for an instance: its name where the name was found,
/// else its identifier, and a fixed name where not even that is known.
pub open spec fn log_stream_name_for(
    instance_id: Option<Seq<char>>,
    instance_name: Option<Seq<char>>,
) -> Seq<char> {
    match instance_id {
        None => unknown_log_stream_name(),
        Some(id) => match instance_name {
            Some(name) => name,
            None => id,
        },
    }
}

/// What an optional string holds.
pub open spec fn text_of(value: Option<String>) -> Option<Seq<char>> {
    match value {
        Some(text) => Some(text@),
        None => None,
    }
}

/// Chooses the name of the log stream from what is known of the instance.
/// `instance_id` is the identifier that the metadata endpoint gave, if it
/// answered; `instance_name` is the value of the instance's `Name` tag, if the
/// lookup for that identifier succeeded.
pub fn get_log_stream_name(instance_id: Option<String>, instance_name: Option<String>) -> (name:
    String)
    ensures
        name@ == log_stream_name_for(text_of(instance_id), text_of(instance_name)),
{
    match instance_id {
        None => String::from_str("unknown"),
        Some(id) => match instance_name {
            Some(name) => name,
            None => id,
        },
    }
}

impl Configuration {
    /// The configuration for the given environment. `log_group_name` is the
    /// value of `LOG_GROUP_NAME`, if it is set; `debug` is the value of
    /// `DEBUG`, if it is set: any value switches debug mode on.
    pub fn new(log_group_name: Option<String>, debug: Option<String>, log_stream_name: String) -> (conf:
        Configuration)
        ensures
            conf.log_group_name@ == match log_group_name {
                Some(name) => name@,
                None => default_log_group_name(),
            },
            conf.log_stream_name == log_stream_name,
            conf.is_debug_mode_enabled == debug.is_some(),
    {
        let log_group_name = match log_group_name {
            Some(name) => name,
            None => String::from_str("journald-to-cloudwatch"),
        };
        Configuration { log_group_name, log_stream_name, is_debug_mode_enabled: debug.is_some() }
    }

    /// Group and stream, joined by a slash.
    pub open spec fn spec_path(&self) -> Seq<char> {
        self.log_group_name@ + "/"@ + self.log_stream_name@
    }

    /// Group and stream, joined by a slash.
    pub fn path(&self) -> (path: String)
        ensures
            path@ == self.spec_path(),
    {
        let mut path = self.log_group_name.clone();
        path.append("/");
        path.append(self.log_stream_name.as_str());
        path
    }

    /// The line to report in debug mode: the message itself when debug mode
    /// is on, nothing when it is off.
    pub fn debug(&self, message: String) -> (line: Option<String>)
        ensures
            line == if self.is_debug_mode_enabled {
                Some(message)
            } else {
                None
            },
    {
        if self.is_debug_mode_enabled {
            Some(message)
        } else {
            None
        }
    }

    /// Largest number of events that a buffer may reach before it is closed:
    /// one in debug mode, so that every event is uploaded on its own.
    pub open spec fn spec_max_events(&self) -> nat {
        if self.is_debug_mode_enabled {
            1
        } else {
            100
        }
    }

    /// Largest number of events that a buffer may reach before it is closed.
    pub fn max_events(&self) -> (limit: usize)
        ensures
            limit == self.spec_max_events(),
    {
        if self.is_debug_mode_enabled {
            1
        } else {
            100
        }
    }

    /// A copy of the configuration.
    pub fn duplicate(&self) -> (copy: Configuration)
        ensures
            copy == *self,
    {
        Configuration {
            log_group_name: self.log_group_name.clone(),
            log_stream_name: self.log_stream_name.clone(),
            is_debug_mode_enabled: self.is_debug_mode_enabled,
        }
    }
}

} // verus!
