//! Two small plugins implemented directly against the registry's handler
//! interface: an echo plugin that answers every message with an echo and
//! draws a small interactive tree, and a counter plugin whose state is one
//! number per instance. They exercise the host end to end without a
//! dynamic library.

use vstd::prelude::*;
use crate::errors::LoaderError;
use crate::metadata::{HistoryMessage, PluginMetadata};
use crate::registry::PluginHandler;
use crate::dict::{contains_str, kv_value};
use crate::strutil::dec_digits;
use crate::ui::{button_id, label_id, textedit_id, toggle_id, Context, Ui, UiComponentType};

verus! {

/// The echo plugin: answers "Echo: " followed by the message, counts
/// button clicks, and keeps a note field and a dark-mode toggle.
#[derive(Debug)]
pub struct EchoPlugin {
    pub name: String,
    pub click_count: u64,
    pub note: String,
    pub dark_mode: bool,
    pub history: Option<Vec<HistoryMessage>>,
}

/// An Option<Vec<HistoryMessage>> copied value for value.
fn clone_history(h: &Option<Vec<HistoryMessage>>) -> (r: Option<Vec<HistoryMessage>>)
    ensures
        match (&r, h) {
            (Some(a), Some(b)) => a@ == b@,
            (None, None) => true,
            _ => false,
        },
{
    match h {
        Some(v) => {
            let n = v.len();
            let mut out: Vec<HistoryMessage> = Vec::new();
            let mut i: usize = 0;
            while i < n
                invariant
                    n == v@.len(),
                    i <= n,
                    out@ == v@.subrange(0, i as int),
                decreases n - i,
            {
                out.push(v[i].clone());
                proof {
                    assert(out@ =~= v@.subrange(0, i + 1 as int));
                }
                i += 1;
            }
            proof {
                assert(v@.subrange(0, n as int) =~= v@);
            }
            Some(out)
        },
        None => None,
    }
}

impl PluginHandler for EchoPlugin {
    /// Construction never fails: there is no library to open.
    fn create(metadata: &PluginMetadata) -> (r: Result<Self, LoaderError>)
        ensures
            match r {
                Ok(p) => p.name@ == metadata.name@ && p.click_count == 0 && !p.dark_mode,
                Err(_) => false,
            },
    {
        Ok(
            EchoPlugin {
                name: metadata.name.clone(),
                click_count: 0,
                note: String::new(),
                dark_mode: false,
                history: None,
            },
        )
    }

    fn initialize(&mut self, metadata: &PluginMetadata) -> (r: i32)
        ensures
            r == 0,
            *final(self) == *old(self),
    {
        let _ = metadata;
        0
    }

    fn on_mount(&mut self) -> (r: i32)
        ensures
            r == 0,
            *final(self) == *old(self),
    {
        0
    }

    fn on_dispose(&mut self) -> (r: i32)
        ensures
            r == 0,
            *final(self) == *old(self),
    {
        0
    }

    fn on_connect(&mut self) -> (r: i32)
        ensures
            r == 0,
            *final(self) == *old(self),
    {
        0
    }

    fn on_disconnect(&mut self) -> (r: i32)
        ensures
            r == 0,
            *final(self) == *old(self),
    {
        0
    }

    fn set_history(&mut self, history: &Option<Vec<HistoryMessage>>) -> (r: i32)
        ensures
            r == 0,
    {
        self.history = clone_history(history);
        0
    }

    /// The echo: the response is exactly "Echo: " followed by the message,
    /// and the plugin's state does not change.
    fn handle_message(&mut self, message: &str) -> (r: Result<String, String>)
        ensures
            *final(self) == *old(self),
            match r {
                Ok(resp) => resp@ == "Echo: "@ + message@,
                Err(_) => false,
            },
    {
        let mut resp: String = "Echo: ".to_owned();
        resp.append(message);
        Ok(resp)
    }

    /// One title label, a Ping button that counts its clicks, a click
    /// counter label, the note editor, and a dark-mode toggle in a row —
    /// issued in exactly that order after whatever the builder already
    /// held, with the note and the toggle bound to this plugin's fields.
    fn update_ui(&mut self, ctx: &Context, ui: &mut Ui)
        ensures
            final(self).name == old(self).name,
            final(self).history == old(self).history,
            final(ui).plugin_id == old(ui).plugin_id,
            final(ui).frames@ == old(ui).frames@,
            final(ui).clicked_components == old(ui).clicked_components,
            final(ui).changed_components == old(ui).changed_components,
            final(ui).ui_event_data == old(ui).ui_event_data,
            ({
                let n0 = old(ui).components@.len() as int;
                let clicked = contains_str(
                    old(ui).clicked_components@,
                    button_id((n0 + 1) as nat, "Ping"@),
                );
                &&& final(self).click_count == (if clicked {
                    if old(self).click_count == u64::MAX {
                        u64::MAX
                    } else {
                        (old(self).click_count + 1) as u64
                    }
                } else {
                    old(self).click_count
                })
                &&& final(self).note@ == (if contains_str(
                    old(ui).changed_components@,
                    textedit_id((n0 + 3) as nat),
                ) {
                    match kv_value(old(ui).ui_event_data@, textedit_id((n0 + 3) as nat)) {
                        Some(v) => v,
                        None => old(self).note@,
                    }
                } else {
                    old(self).note@
                })
                &&& final(self).dark_mode == (if contains_str(
                    old(ui).changed_components@,
                    toggle_id((n0 + 5) as nat),
                ) {
                    match kv_value(old(ui).ui_event_data@, toggle_id((n0 + 5) as nat)) {
                        Some(v) => if v == "true"@ {
                            true
                        } else if v == "false"@ {
                            false
                        } else {
                            old(self).dark_mode
                        },
                        None => old(self).dark_mode,
                    }
                } else {
                    old(self).dark_mode
                })
                &&& final(ui).components@.len() == n0 + 5
                &&& forall|j: int|
                    0 <= j < n0 ==> final(ui).components@[j] == old(ui).components@[j]
                &&& final(ui).components@[n0].id@ == label_id(n0 as nat)
                &&& match final(ui).components@[n0].component {
                    UiComponentType::Label { text } => text@ == "Echo Plugin"@,
                    _ => false,
                }
                &&& final(ui).components@[n0 + 1].id@ == button_id((n0 + 1) as nat, "Ping"@)
                &&& match final(ui).components@[n0 + 1].component {
                    UiComponentType::Button { text, enabled } => text@ == "Ping"@ && enabled,
                    _ => false,
                }
                &&& match final(ui).components@[n0 + 2].component {
                    UiComponentType::Label { text } => text@ == "Clicks: "@ + dec_digits(
                        final(self).click_count as nat,
                    ),
                    _ => false,
                }
                &&& final(ui).components@[n0 + 3].id@ == textedit_id((n0 + 3) as nat)
                &&& match final(ui).components@[n0 + 3].component {
                    UiComponentType::TextEdit { value, hint } => value@ == final(self).note@
                        && hint@ == Seq::<char>::empty(),
                    _ => false,
                }
                &&& match final(ui).components@[n0 + 4].component {
                    UiComponentType::Horizontal { children } => {
                        &&& children@.len() == 2
                        &&& children@[0].id@ == label_id((n0 + 4) as nat)
                        &&& match children@[0].component {
                            UiComponentType::Label { text } => text@ == "Dark mode:"@,
                            _ => false,
                        }
                        &&& children@[1].id@ == toggle_id((n0 + 5) as nat)
                        &&& match children@[1].component {
                            UiComponentType::Toggle { value } => value == final(self).dark_mode,
                            _ => false,
                        }
                    },
                    _ => false,
                }
            }),
    {
        let _ = ctx;
        ui.label("Echo Plugin");
        let ping = ui.button("Ping");
        if ping.clicked() {
            if self.click_count < u64::MAX {
                self.click_count = self.click_count + 1;
            }
        }
        let mut count_text: String = "Clicks: ".to_owned();
        let digits = crate::strutil::u64_string(self.click_count);
        count_text.append(digits.as_str());
        ui.label(count_text.as_str());
        let _ = ui.text_edit_singleline(&mut self.note);
        ui.begin_horizontal();
        ui.label("Dark mode:");
        let _ = ui.toggle(&mut self.dark_mode);
        let ghost before_group = ui.frames@;
        ui.end_group();
        proof {
            assert(before_group.drop_last() =~= old(ui).frames@);
        }
    }

    fn destroy(&mut self)
        ensures
            *final(self) == *old(self),
    {
    }
}

/// The counter plugin: one number per instance, driven by the messages
/// "increment" and "get".
#[derive(Debug)]
pub struct CounterPlugin {
    pub counter: u64,
}

impl CounterPlugin {
    /// A counter at zero.
    pub fn new() -> (r: CounterPlugin)
        ensures
            r.counter == 0,
    {
        CounterPlugin { counter: 0 }
    }

    /// The current count.
    pub fn get_counter(&self) -> (r: u64)
        ensures
            r == self.counter,
    {
        self.counter
    }

    /// Raise the count by one, saturating at the type's maximum, and
    /// report the new value.
    pub fn increment_counter(&mut self) -> (r: u64)
        ensures
            final(self).counter == (if old(self).counter == u64::MAX {
                u64::MAX
            } else {
                (old(self).counter + 1) as u64
            }),
            r == final(self).counter,
    {
        if self.counter < u64::MAX {
            self.counter = self.counter + 1;
        }
        self.counter
    }
}

impl PluginHandler for CounterPlugin {
    /// Construction never fails and starts at zero.
    fn create(metadata: &PluginMetadata) -> (r: Result<Self, LoaderError>)
        ensures
            match r {
                Ok(p) => p.counter == 0,
                Err(_) => false,
            },
    {
        let _ = metadata;
        Ok(CounterPlugin { counter: 0 })
    }

    fn initialize(&mut self, metadata: &PluginMetadata) -> (r: i32)
        ensures
            r == 0,
            *final(self) == *old(self),
    {
        let _ = metadata;
        0
    }

    fn on_mount(&mut self) -> (r: i32)
        ensures
            r == 0,
            *final(self) == *old(self),
    {
        0
    }

    fn on_dispose(&mut self) -> (r: i32)
        ensures
            r == 0,
            *final(self) == *old(self),
    {
        0
    }

    fn on_connect(&mut self) -> (r: i32)
        ensures
            r == 0,
            *final(self) == *old(self),
    {
        0
    }

    fn on_disconnect(&mut self) -> (r: i32)
        ensures
            r == 0,
            *final(self) == *old(self),
    {
        0
    }

    fn set_history(&mut self, history: &Option<Vec<HistoryMessage>>) -> (r: i32)
        ensures
            r == 0,
            *final(self) == *old(self),
    {
        let _ = history;
        0
    }

    /// "increment" raises the count and reports it; "get" reports it;
    /// anything else is answered as unknown. The count depends on this
    /// instance's own history of increments and on nothing else.
    fn handle_message(&mut self, message: &str) -> (r: Result<String, String>)
        ensures
            final(self).counter == (if message@ == "increment"@ {
                if old(self).counter == u64::MAX {
                    u64::MAX
                } else {
                    (old(self).counter + 1) as u64
                }
            } else {
                old(self).counter
            }),
            match r {
                Ok(resp) => {
                    if message@ == "increment"@ {
                        resp@ == "Counter is now: "@ + dec_digits(final(self).counter as nat)
                    } else if message@ == "get"@ {
                        resp@ == "Counter is: "@ + dec_digits(old(self).counter as nat)
                    } else {
                        resp@ == "Unknown command: "@ + message@
                    }
                },
                Err(_) => false,
            },
    {
        proof {
            reveal_strlit("increment");
            reveal_strlit("get");
            assert("increment"@.len() == 9);
            assert("get"@.len() == 3);
        }
        if crate::strutil::str_eq(message, "increment") {
            let value = self.increment_counter();
            let mut resp: String = "Counter is now: ".to_owned();
            let digits = crate::strutil::u64_string(value);
            resp.append(digits.as_str());
            Ok(resp)
        } else if crate::strutil::str_eq(message, "get") {
            let mut resp: String = "Counter is: ".to_owned();
            let digits = crate::strutil::u64_string(self.counter);
            resp.append(digits.as_str());
            Ok(resp)
        } else {
            let mut resp: String = "Unknown command: ".to_owned();
            resp.append(message);
            Ok(resp)
        }
    }

    /// A title label, an Increment button that raises the count when it
    /// was this frame's click source, and a label showing the new count —
    /// issued in exactly that order after whatever the builder already
    /// held.
    fn update_ui(&mut self, ctx: &Context, ui: &mut Ui)
        ensures
            final(ui).same_events(old(ui)),
            ({
                let n0 = old(ui).components@.len() as int;
                let clicked = contains_str(
                    old(ui).clicked_components@,
                    button_id((n0 + 1) as nat, "Increment"@),
                );
                &&& final(self).counter == (if clicked {
                    if old(self).counter == u64::MAX {
                        u64::MAX
                    } else {
                        (old(self).counter + 1) as u64
                    }
                } else {
                    old(self).counter
                })
                &&& final(ui).components@.len() == n0 + 3
                &&& forall|j: int|
                    0 <= j < n0 ==> final(ui).components@[j] == old(ui).components@[j]
                &&& match final(ui).components@[n0].component {
                    UiComponentType::Label { text } => text@ == "Counter"@,
                    _ => false,
                }
                &&& final(ui).components@[n0 + 1].id@ == button_id(
                    (n0 + 1) as nat,
                    "Increment"@,
                )
                &&& match final(ui).components@[n0 + 1].component {
                    UiComponentType::Button { text, enabled } => text@ == "Increment"@
                        && enabled,
                    _ => false,
                }
                &&& match final(ui).components@[n0 + 2].component {
                    UiComponentType::Label { text } => text@ == "Count: "@ + dec_digits(
                        final(self).counter as nat,
                    ),
                    _ => false,
                }
            }),
    {
        let _ = ctx;
        ui.label("Counter");
        let bump = ui.button("Increment");
        if bump.clicked() {
            let _ = self.increment_counter();
        }
        let mut count_text: String = "Count: ".to_owned();
        let digits = crate::strutil::u64_string(self.counter);
        count_text.append(digits.as_str());
        ui.label(count_text.as_str());
    }

    fn destroy(&mut self)
        ensures
            *final(self) == *old(self),
    {
    }
}

} // verus!
