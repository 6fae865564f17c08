//! Plugin metadata as delivered by the external package scanner, and the
//! chat-history records a plugin may ask the host to inject.

use vstd::prelude::*;

verus! {

/// Everything the host knows about one plugin package. The instance_id is
/// absent until the registry assigns one at mount, and never changes after.
#[derive(Debug)]
pub struct PluginMetadata {
    pub id: String,
    pub disabled: bool,
    pub name: String,
    pub description: String,
    pub version: String,
    pub author: Option<String>,
    pub library_path: Option<String>,
    pub config_path: String,
    pub instance_id: Option<String>,
    pub require_history: bool,
}

impl Clone for PluginMetadata {
    fn clone(&self) -> (res: Self)
        ensures
            res == *self,
    {
        PluginMetadata {
            id: self.id.clone(),
            disabled: self.disabled,
            name: self.name.clone(),
            description: self.description.clone(),
            version: self.version.clone(),
            author: clone_opt_string(&self.author),
            library_path: clone_opt_string(&self.library_path),
            config_path: self.config_path.clone(),
            instance_id: clone_opt_string(&self.instance_id),
            require_history: self.require_history,
        }
    }
}

/// An Option<String> copied value for value.
pub fn clone_opt_string(o: &Option<String>) -> (res: Option<String>)
    ensures
        res == *o,
{
    match o {
        Option::Some(s) => Option::Some(s.clone()),
        Option::None => Option::None,
    }
}

/// One prior conversation turn handed to a plugin that requires history.
#[derive(Debug)]
pub struct HistoryMessage {
    pub role: String,
    pub content: String,
}

impl Clone for HistoryMessage {
    fn clone(&self) -> (res: Self)
        ensures
            res == *self,
    {
        HistoryMessage { role: self.role.clone(), content: self.content.clone() }
    }
}

} // verus!
