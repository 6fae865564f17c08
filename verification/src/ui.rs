//! The immediate-mode UI bridge. A plugin's update routine rebuilds the
//! whole widget tree on every call through the builder methods here; each
//! builder reports whether its widget was this frame's click or change
//! source. Widget ids carry a deterministic per-kind prefix, which is what
//! lets an inbound event be classified from the id alone.

use vstd::prelude::*;
use crate::dict::{contains_str, kv_get, kv_put, kv_value, list_contains, list_insert};
use crate::keyed::key_index;
use crate::strutil::{dec_digits, has_prefix, parse_bool, parse_index, spec_parse_index,
    str_eq, u64_string, underscore_spaces, underscored, views_of};

verus! {

broadcast use vstd::string::group_string_axioms;

/// What one builder call reports about its widget for this frame.
#[derive(Debug)]
pub struct Response {
    pub clicked: bool,
    pub changed: bool,
    pub hovered: bool,
    pub component_id: Option<String>,
}

impl Response {
    /// A response that reports nothing.
    pub fn new() -> (r: Response)
        ensures
            !r.clicked && !r.changed && !r.hovered && r.component_id is None,
    {
        Response { clicked: false, changed: false, hovered: false, component_id: None }
    }

    /// A response for one widget with the given event states.
    pub fn new_with_component_and_state(component_id: String, clicked: bool, changed: bool) -> (
        r: Response)
        ensures
            r.clicked == clicked,
            r.changed == changed,
            !r.hovered,
            r.component_id == Some(component_id),
    {
        Response { clicked, changed, hovered: false, component_id: Some(component_id) }
    }

    /// Whether the widget was clicked this frame.
    pub fn clicked(&self) -> (r: bool)
        ensures
            r == self.clicked,
    {
        self.clicked
    }

    /// Whether the widget's value changed this frame.
    pub fn changed(&self) -> (r: bool)
        ensures
            r == self.changed,
    {
        self.changed
    }

    /// Whether the widget is hovered. The bridge never reports hovering.
    pub fn hovered(&self) -> (r: bool)
        ensures
            r == self.hovered,
    {
        self.hovered
    }

    /// An anonymous clicked response.
    pub fn with_clicked() -> (r: Response)
        ensures
            r.clicked && !r.changed && !r.hovered && r.component_id is None,
    {
        Response { clicked: true, changed: false, hovered: false, component_id: None }
    }

    /// An anonymous changed response.
    pub fn with_changed() -> (r: Response)
        ensures
            !r.clicked && r.changed && !r.hovered && r.component_id is None,
    {
        Response { clicked: false, changed: true, hovered: false, component_id: None }
    }
}

/// One node of the serialisable widget tree.
#[derive(Debug)]
pub struct UiComponent {
    pub id: String,
    pub component: UiComponentType,
}

/// The widget kinds of the tree.
#[derive(Debug)]
pub enum UiComponentType {
    Label { text: String },
    Button { text: String, enabled: bool },
    TextEdit { value: String, hint: String },
    SelectableValue { options: Vec<String>, selected: usize },
    ComboBox { options: Vec<String>, selected: Option<usize>, placeholder: String },
    Toggle { value: bool },
    Horizontal { children: Vec<UiComponent> },
    Vertical { children: Vec<UiComponent> },
}

/// Theme information handed to the update routine.
#[derive(Debug, Clone, Copy)]
pub struct Theme {
    pub is_dark: bool,
}

impl Default for Theme {
    /// The light theme.
    fn default() -> (r: Theme)
        ensures
            !r.is_dark,
    {
        Theme { is_dark: false }
    }
}

/// The per-call context of one update invocation: which instance is being
/// drawn and what the frontend submitted for this frame's event.
#[derive(Debug)]
pub struct Context {
    pub plugin_id: String,
    pub theme: Theme,
    pub ui_event_data: Vec<(String, String)>,
}

impl Context {
    /// A context without event data.
    pub fn new(plugin_id: String) -> (r: Context)
        ensures
            r.plugin_id == plugin_id,
            r.ui_event_data@ =~= Seq::<(String, String)>::empty(),
    {
        Context { plugin_id, theme: Theme { is_dark: false }, ui_event_data: Vec::new() }
    }

    /// A context carrying this frame's submitted values.
    pub fn with_ui_event_data(plugin_id: String, ui_event_data: Vec<(String, String)>) -> (r:
        Context)
        ensures
            r.plugin_id == plugin_id,
            r.ui_event_data == ui_event_data,
    {
        Context { plugin_id, theme: Theme { is_dark: false }, ui_event_data }
    }

    /// The submitted value for one component, if any.
    pub fn get_ui_event_data(&self, component_id: &str) -> (r: Option<&String>)
        ensures
            match r {
                Some(s) => kv_value(self.ui_event_data@, component_id@) == Some(s@),
                None => kv_value(self.ui_event_data@, component_id@) is None,
            },
    {
        kv_get(&self.ui_event_data, component_id)
    }
}

/// The configuration handed to a plugin when it is created.
#[derive(Debug)]
pub struct CreationContext<'a> {
    pub config: Vec<(String, String)>,
    pub plugin_id: &'a str,
}

impl<'a> CreationContext<'a> {
    /// A creation context without configuration.
    pub fn new(plugin_id: &'a str) -> (r: CreationContext<'a>)
        ensures
            r.plugin_id == plugin_id,
            r.config@ =~= Seq::<(String, String)>::empty(),
    {
        CreationContext { config: Vec::new(), plugin_id }
    }

    /// A creation context carrying configuration values.
    pub fn with_config(plugin_id: &'a str, config: Vec<(String, String)>) -> (r: CreationContext<
        'a,
    >)
        ensures
            r.plugin_id == plugin_id,
            r.config == config,
    {
        CreationContext { config, plugin_id }
    }
}

/// One open grouping scope: the layout direction and where in the flat list
/// its children begin.
#[derive(Debug)]
pub struct GroupFrame {
    pub horizontal: bool,
    pub start: usize,
}

/// The id of the n-th issued label.
pub open spec fn label_id(n: nat) -> Seq<char> {
    "label_"@ + dec_digits(n)
}

/// The id of a button issued at position n with the given text.
pub open spec fn button_id(n: nat, text: Seq<char>) -> Seq<char> {
    "button_"@ + dec_digits(n) + "_"@ + underscored(text)
}

/// The id of a text editor issued at position n.
pub open spec fn textedit_id(n: nat) -> Seq<char> {
    "textedit_"@ + dec_digits(n)
}

/// The id of a combo box issued at position n with the given placeholder.
pub open spec fn combo_id(n: nat, placeholder: Seq<char>) -> Seq<char> {
    "combo_"@ + dec_digits(n) + "_"@ + underscored(placeholder)
}

/// The id of a toggle issued at position n.
pub open spec fn toggle_id(n: nat) -> Seq<char> {
    "toggle_"@ + dec_digits(n)
}

/// Whether an id names one of the event-bearing widget kinds, judged from
/// its per-kind prefix alone.
pub open spec fn is_widget_event(k: Seq<char>) -> bool {
    ||| has_prefix(k, "combo_"@)
    ||| has_prefix(k, "button_"@)
    ||| has_prefix(k, "textedit_"@)
    ||| has_prefix(k, "toggle_"@)
}

/// What a combo box's selection becomes, given the options, the prior
/// selection, whether this frame changed the widget, and the submitted
/// value: a submitted in-range index picks that option, a submitted
/// out-of-range index clears the selection, anything else keeps the prior
/// one — which is itself cleared if it does not occur among the options.
pub open spec fn combo_result(
    opts: Seq<String>,
    prior: Option<String>,
    changed: bool,
    ev: Option<Seq<char>>,
) -> Option<String> {
    let sel = if changed {
        match ev {
            Some(v) => match spec_parse_index(v) {
                Some(ix) => if ix < opts.len() {
                    Some(opts[ix as int])
                } else {
                    None
                },
                None => prior,
            },
            None => prior,
        }
    } else {
        prior
    };
    match sel {
        Some(sv) => if contains_str(opts, sv@) {
            Some(sv)
        } else {
            None
        },
        None => None,
    }
}

/// The immediate-mode builder: the widgets of the frame under construction
/// together with this frame's event record.
#[derive(Debug)]
pub struct Ui {
    pub components: Vec<UiComponent>,
    pub plugin_id: String,
    pub frames: Vec<GroupFrame>,
    pub clicked_components: Vec<String>,
    pub changed_components: Vec<String>,
    pub ui_event_data: Vec<(String, String)>,
}

impl Ui {
    /// Everything but the widget list is as in other.
    pub open spec fn same_events(&self, other: &Ui) -> bool {
        &&& self.plugin_id == other.plugin_id
        &&& self.frames == other.frames
        &&& self.clicked_components == other.clicked_components
        &&& self.changed_components == other.changed_components
        &&& self.ui_event_data == other.ui_event_data
    }

    /// An empty builder for one plugin instance.
    pub fn new(plugin_id: String) -> (r: Ui)
        ensures
            r.components@ =~= Seq::<UiComponent>::empty(),
            r.plugin_id == plugin_id,
            r.frames@ =~= Seq::<GroupFrame>::empty(),
            r.clicked_components@ =~= Seq::<String>::empty(),
            r.changed_components@ =~= Seq::<String>::empty(),
            r.ui_event_data@ =~= Seq::<(String, String)>::empty(),
    {
        Ui {
            components: Vec::new(),
            plugin_id,
            frames: Vec::new(),
            clicked_components: Vec::new(),
            changed_components: Vec::new(),
            ui_event_data: Vec::new(),
        }
    }

    /// The id of the plugin this builder draws for.
    pub fn plugin_id(&self) -> (r: &str)
        ensures
            r@ == self.plugin_id@,
    {
        self.plugin_id.as_str()
    }

    /// Add a text label.
    pub fn label(&mut self, text: &str)
        ensures
            final(self).same_events(old(self)),
            final(self).components@.len() == old(self).components@.len() + 1,
            forall|j: int|
                0 <= j < old(self).components@.len() ==> final(self).components@[j] == old(
                    self,
                ).components@[j],
            final(self).components@.last().id@ == label_id(old(self).components@.len() as nat),
            match final(self).components@.last().component {
                UiComponentType::Label { text: t } => t@ == text@,
                _ => false,
            },
    {
        let id = compose_id("label_", self.components.len());
        let component = UiComponent {
            id,
            component: UiComponentType::Label { text: text.to_owned() },
        };
        self.components.push(component);
    }

    /// Add a clickable button. The response reports a click exactly when
    /// this frame's event record holds the button's id as clicked.
    pub fn button(&mut self, text: &str) -> (r: Response)
        ensures
            final(self).same_events(old(self)),
            final(self).components@.len() == old(self).components@.len() + 1,
            forall|j: int|
                0 <= j < old(self).components@.len() ==> final(self).components@[j] == old(
                    self,
                ).components@[j],
            final(self).components@.last().id@ == button_id(
                old(self).components@.len() as nat,
                text@,
            ),
            match final(self).components@.last().component {
                UiComponentType::Button { text: t, enabled } => t@ == text@ && enabled,
                _ => false,
            },
            r.clicked == contains_str(
                old(self).clicked_components@,
                button_id(old(self).components@.len() as nat, text@),
            ),
            !r.changed,
            match r.component_id {
                Some(s) => s@ == button_id(old(self).components@.len() as nat, text@),
                None => false,
            },
    {
        let id = compose_id_text("button_", self.components.len(), text);
        let component = UiComponent {
            id: id.clone(),
            component: UiComponentType::Button { text: text.to_owned(), enabled: true },
        };
        self.components.push(component);
        let was_clicked = list_contains(&self.clicked_components, id.as_str());
        Response::new_with_component_and_state(id, was_clicked, false)
    }

    /// Add a single-line text editor bound to value. If this frame changed
    /// the widget and submitted a value, the binding is updated to it before
    /// the widget is issued.
    pub fn text_edit_singleline(&mut self, value: &mut String) -> (r: Response)
        ensures
            final(self).same_events(old(self)),
            final(self).components@.len() == old(self).components@.len() + 1,
            forall|j: int|
                0 <= j < old(self).components@.len() ==> final(self).components@[j] == old(
                    self,
                ).components@[j],
            final(self).components@.last().id@ == textedit_id(old(self).components@.len() as nat),
            r.changed == contains_str(
                old(self).changed_components@,
                textedit_id(old(self).components@.len() as nat),
            ),
            !r.clicked,
            match r.component_id {
                Some(s) => s@ == textedit_id(old(self).components@.len() as nat),
                None => false,
            },
            final(value)@ == (if r.changed {
                match kv_value(
                    old(self).ui_event_data@,
                    textedit_id(old(self).components@.len() as nat),
                ) {
                    Some(v) => v,
                    None => old(value)@,
                }
            } else {
                old(value)@
            }),
            match final(self).components@.last().component {
                UiComponentType::TextEdit { value: v, hint } => v@ == final(value)@ && hint@
                    == Seq::<char>::empty(),
                _ => false,
            },
    {
        let id = compose_id("textedit_", self.components.len());
        let was_changed = list_contains(&self.changed_components, id.as_str());
        if was_changed {
            match kv_get(&self.ui_event_data, id.as_str()) {
                Some(new_value) => {
                    let nv = new_value.clone();
                    *value = nv;
                },
                None => {},
            }
        }
        let component = UiComponent {
            id: id.clone(),
            component: UiComponentType::TextEdit {
                value: value.clone(),
                hint: String::new(),
            },
        };
        self.components.push(component);
        proof {
            reveal_strlit("");
        }
        Response::new_with_component_and_state(id, false, was_changed)
    }

    /// Add a combo box over the given options, bound to selected. A
    /// submitted selection index is applied first; afterwards a selection
    /// that does not occur among the options is cleared, and the issued
    /// widget records the index of the selection within the options.
    pub fn combo_box(&mut self, options: Vec<String>, selected: &mut Option<String>,
        placeholder: &str) -> (r: Response)
        ensures
            final(self).same_events(old(self)),
            final(self).components@.len() == old(self).components@.len() + 1,
            forall|j: int|
                0 <= j < old(self).components@.len() ==> final(self).components@[j] == old(
                    self,
                ).components@[j],
            final(self).components@.last().id@ == combo_id(
                old(self).components@.len() as nat,
                placeholder@,
            ),
            *final(selected) == combo_result(
                options@,
                *old(selected),
                contains_str(
                    old(self).changed_components@,
                    combo_id(old(self).components@.len() as nat, placeholder@),
                ),
                kv_value(
                    old(self).ui_event_data@,
                    combo_id(old(self).components@.len() as nat, placeholder@),
                ),
            ),
            match final(self).components@.last().component {
                UiComponentType::ComboBox { options: o, selected: s, placeholder: p } => {
                    &&& o == options
                    &&& p@ == placeholder@
                    &&& s == (match *final(selected) {
                        Some(sv) => {
                            let ix = key_index(views_of(options@), sv@);
                            if ix >= 0 {
                                Some(ix as usize)
                            } else {
                                None
                            }
                        },
                        None => None::<usize>,
                    })
                },
                _ => false,
            },
            r.clicked == contains_str(
                old(self).clicked_components@,
                combo_id(old(self).components@.len() as nat, placeholder@),
            ),
            r.changed == contains_str(
                old(self).changed_components@,
                combo_id(old(self).components@.len() as nat, placeholder@),
            ),
            match r.component_id {
                Some(s) => s@ == combo_id(old(self).components@.len() as nat, placeholder@),
                None => false,
            },
    {
        let id = compose_id_text("combo_", self.components.len(), placeholder);
        let was_clicked = list_contains(&self.clicked_components, id.as_str());
        let was_changed = list_contains(&self.changed_components, id.as_str());
        if was_changed {
            match kv_get(&self.ui_event_data, id.as_str()) {
                Some(new_value) => {
                    match parse_index(new_value.as_str()) {
                        Some(ix) => {
                            if ix < options.len() {
                                *selected = Some(options[ix].clone());
                            } else {
                                *selected = None;
                            }
                        },
                        None => {},
                    }
                },
                None => {},
            }
        }
        let selected_index: Option<usize> = match selected {
            Some(sv) => crate::dict::index_of_string(&options, sv.as_str()),
            None => None,
        };
        if selected.is_some() && selected_index.is_none() {
            *selected = None;
        }
        let component = UiComponent {
            id: id.clone(),
            component: UiComponentType::ComboBox {
                options,
                selected: selected_index,
                placeholder: placeholder.to_owned(),
            },
        };
        self.components.push(component);
        Response::new_with_component_and_state(id, was_clicked, was_changed)
    }

    /// Add a toggle switch bound to value. A submitted boolean is applied to
    /// the binding before the widget is issued.
    pub fn toggle(&mut self, value: &mut bool) -> (r: Response)
        ensures
            final(self).same_events(old(self)),
            final(self).components@.len() == old(self).components@.len() + 1,
            forall|j: int|
                0 <= j < old(self).components@.len() ==> final(self).components@[j] == old(
                    self,
                ).components@[j],
            final(self).components@.last().id@ == toggle_id(old(self).components@.len() as nat),
            r.clicked == contains_str(
                old(self).clicked_components@,
                toggle_id(old(self).components@.len() as nat),
            ),
            r.changed == contains_str(
                old(self).changed_components@,
                toggle_id(old(self).components@.len() as nat),
            ),
            *final(value) == (if r.changed {
                match kv_value(
                    old(self).ui_event_data@,
                    toggle_id(old(self).components@.len() as nat),
                ) {
                    Some(v) => if v == "true"@ {
                        true
                    } else if v == "false"@ {
                        false
                    } else {
                        *old(value)
                    },
                    None => *old(value),
                }
            } else {
                *old(value)
            }),
            match final(self).components@.last().component {
                UiComponentType::Toggle { value: v } => v == *final(value),
                _ => false,
            },
            match r.component_id {
                Some(s) => s@ == toggle_id(old(self).components@.len() as nat),
                None => false,
            },
    {
        let id = compose_id("toggle_", self.components.len());
        let was_clicked = list_contains(&self.clicked_components, id.as_str());
        let was_changed = list_contains(&self.changed_components, id.as_str());
        if was_changed {
            match kv_get(&self.ui_event_data, id.as_str()) {
                Some(new_value) => {
                    match parse_bool(new_value.as_str()) {
                        Some(b) => {
                            proof {
                                reveal_strlit("true");
                                reveal_strlit("false");
                                assert("true"@.len() == 4);
                                assert("false"@.len() == 5);
                            }
                            *value = b;
                        },
                        None => {},
                    }
                },
                None => {},
            }
        }
        let component = UiComponent {
            id: id.clone(),
            component: UiComponentType::Toggle { value: *value },
        };
        self.components.push(component);
        Response::new_with_component_and_state(id, was_clicked, was_changed)
    }

    /// Open a horizontal grouping scope. Widgets issued until the matching
    /// end_group call become the children of one horizontal container.
    pub fn begin_horizontal(&mut self)
        ensures
            final(self).components == old(self).components,
            final(self).plugin_id == old(self).plugin_id,
            final(self).clicked_components == old(self).clicked_components,
            final(self).changed_components == old(self).changed_components,
            final(self).ui_event_data == old(self).ui_event_data,
            final(self).frames@.len() == old(self).frames@.len() + 1,
            forall|j: int|
                0 <= j < old(self).frames@.len() ==> final(self).frames@[j] == old(
                    self,
                ).frames@[j],
            final(self).frames@.last().horizontal,
            final(self).frames@.last().start == old(self).components@.len(),
    {
        let start = self.components.len();
        self.frames.push(GroupFrame { horizontal: true, start });
    }

    /// Open a vertical grouping scope.
    pub fn begin_vertical(&mut self)
        ensures
            final(self).components == old(self).components,
            final(self).plugin_id == old(self).plugin_id,
            final(self).clicked_components == old(self).clicked_components,
            final(self).changed_components == old(self).changed_components,
            final(self).ui_event_data == old(self).ui_event_data,
            final(self).frames@.len() == old(self).frames@.len() + 1,
            forall|j: int|
                0 <= j < old(self).frames@.len() ==> final(self).frames@[j] == old(
                    self,
                ).frames@[j],
            !final(self).frames@.last().horizontal,
            final(self).frames@.last().start == old(self).components@.len(),
    {
        let start = self.components.len();
        self.frames.push(GroupFrame { horizontal: false, start });
    }

    /// Close the innermost grouping scope: the widgets issued since it was
    /// opened are wrapped, in order, into one container of its direction.
    /// An empty scope and a missing scope leave the widget list as it is.
    pub fn end_group(&mut self)
        ensures
            final(self).plugin_id == old(self).plugin_id,
            final(self).clicked_components == old(self).clicked_components,
            final(self).changed_components == old(self).changed_components,
            final(self).ui_event_data == old(self).ui_event_data,
            old(self).frames@.len() == 0 ==> final(self).components == old(self).components
                && final(self).frames@ == old(self).frames@,
            old(self).frames@.len() > 0 ==> {
                let frame = old(self).frames@.last();
                let start = frame.start as int;
                &&& final(self).frames@ == old(self).frames@.drop_last()
                &&& start > old(self).components@.len() ==> final(self).components == old(
                    self,
                ).components
                &&& (start <= old(self).components@.len() && start == old(
                    self,
                ).components@.len()) ==> final(self).components == old(self).components
                &&& start < old(self).components@.len() ==> {
                    &&& final(self).components@.len() == start + 1
                    &&& forall|j: int|
                        0 <= j < start ==> final(self).components@[j] == old(
                            self,
                        ).components@[j]
                    &&& final(self).components@.last().id@ == (if frame.horizontal {
                        "horizontal_"@ + dec_digits(start as nat)
                    } else {
                        "vertical_"@ + dec_digits(start as nat)
                    })
                    &&& match final(self).components@.last().component {
                        UiComponentType::Horizontal { children } => frame.horizontal
                            && children@ == old(self).components@.subrange(
                            start,
                            old(self).components@.len() as int,
                        ),
                        UiComponentType::Vertical { children } => !frame.horizontal
                            && children@ == old(self).components@.subrange(
                            start,
                            old(self).components@.len() as int,
                        ),
                        _ => false,
                    }
                }
            },
    {
        let frame = match self.frames.pop() {
            Some(f) => f,
            None => {
                return;
            },
        };
        proof {
            assert(self.frames@ =~= old(self).frames@.drop_last());
        }
        if frame.start >= self.components.len() {
            return;
        }
        let ghost start = frame.start as int;
        let children = self.components.split_off(frame.start);
        proof {
            assert(self.components@ =~= old(self).components@.subrange(0, start));
            assert(children@ =~= old(self).components@.subrange(
                start,
                old(self).components@.len() as int,
            ));
            assert(self.frames@ =~= old(self).frames@.drop_last());
        }
        let id = if frame.horizontal {
            compose_id("horizontal_", frame.start)
        } else {
            compose_id("vertical_", frame.start)
        };
        let component = UiComponent {
            id,
            component: if frame.horizontal {
                UiComponentType::Horizontal { children }
            } else {
                UiComponentType::Vertical { children }
            },
        };
        self.components.push(component);
    }

    /// The widgets issued so far, in issue order.
    pub fn get_components(&self) -> (r: &Vec<UiComponent>)
        ensures
            r == &self.components,
    {
        &self.components
    }

    /// Drop the widgets and this frame's event record, keeping open scopes.
    pub fn clear(&mut self)
        ensures
            final(self).components@ =~= Seq::<UiComponent>::empty(),
            final(self).clicked_components@ =~= Seq::<String>::empty(),
            final(self).changed_components@ =~= Seq::<String>::empty(),
            final(self).ui_event_data@ =~= Seq::<(String, String)>::empty(),
            final(self).plugin_id == old(self).plugin_id,
            final(self).frames == old(self).frames,
    {
        self.components.clear();
        self.clicked_components.clear();
        self.changed_components.clear();
        self.ui_event_data.clear();
    }

    /// Drop only the widgets, keeping the event record for the update call
    /// about to run.
    pub fn clear_components_only(&mut self)
        ensures
            final(self).components@ =~= Seq::<UiComponent>::empty(),
            final(self).plugin_id == old(self).plugin_id,
            final(self).frames == old(self).frames,
            final(self).clicked_components == old(self).clicked_components,
            final(self).changed_components == old(self).changed_components,
            final(self).ui_event_data == old(self).ui_event_data,
    {
        self.components.clear();
    }

    /// Drop the event record once the update call is over.
    pub fn clear_events(&mut self)
        ensures
            final(self).clicked_components@ =~= Seq::<String>::empty(),
            final(self).changed_components@ =~= Seq::<String>::empty(),
            final(self).ui_event_data@ =~= Seq::<(String, String)>::empty(),
            final(self).components == old(self).components,
            final(self).plugin_id == old(self).plugin_id,
            final(self).frames == old(self).frames,
    {
        self.clicked_components.clear();
        self.changed_components.clear();
        self.ui_event_data.clear();
    }

    /// Record one inbound event. The submitted value is stored under the
    /// component id, and the id's prefix decides how the event is
    /// classified: buttons click; text editors change; combo boxes and
    /// toggles do both. The report says whether the id belongs to any of
    /// those kinds.
    pub fn handle_ui_event(&mut self, component_id: &str, value: &str) -> (r: bool)
        ensures
            final(self).components == old(self).components,
            final(self).plugin_id == old(self).plugin_id,
            final(self).frames == old(self).frames,
            kv_value(final(self).ui_event_data@, component_id@) == Some(value@),
            forall|q: Seq<char>|
                q != component_id@ ==> kv_value(final(self).ui_event_data@, q) == kv_value(
                    old(self).ui_event_data@,
                    q,
                ),
            forall|q: Seq<char>|
                contains_str(final(self).clicked_components@, q) <==> (contains_str(
                    old(self).clicked_components@,
                    q,
                ) || (q == component_id@ && (has_prefix(component_id@, "combo_"@) || has_prefix(
                    component_id@,
                    "button_"@,
                ) || has_prefix(component_id@, "toggle_"@)))),
            forall|q: Seq<char>|
                contains_str(final(self).changed_components@, q) <==> (contains_str(
                    old(self).changed_components@,
                    q,
                ) || (q == component_id@ && (has_prefix(component_id@, "combo_"@) || has_prefix(
                    component_id@,
                    "textedit_"@,
                ) || has_prefix(component_id@, "toggle_"@)))),
            r == (has_prefix(component_id@, "combo_"@) || has_prefix(component_id@, "button_"@)
                || has_prefix(component_id@, "textedit_"@) || has_prefix(
                component_id@,
                "toggle_"@,
            )),
    {
        kv_put(&mut self.ui_event_data, component_id, value);
        if crate::strutil::starts_with_str(component_id, "combo_") {
            list_insert(&mut self.clicked_components, component_id);
            list_insert(&mut self.changed_components, component_id);
            true
        } else if crate::strutil::starts_with_str(component_id, "button_") {
            proof {
                reveal_strlit("button_");
                reveal_strlit("textedit_");
                reveal_strlit("toggle_");
                if has_prefix(component_id@, "textedit_"@) {
                    crate::strutil::lemma_prefix_char(component_id@, "textedit_"@, 0);
                    crate::strutil::lemma_prefix_char(component_id@, "button_"@, 0);
                }
                if has_prefix(component_id@, "toggle_"@) {
                    crate::strutil::lemma_prefix_char(component_id@, "toggle_"@, 0);
                    crate::strutil::lemma_prefix_char(component_id@, "button_"@, 0);
                }
            }
            list_insert(&mut self.clicked_components, component_id);
            true
        } else if crate::strutil::starts_with_str(component_id, "textedit_") {
            proof {
                reveal_strlit("textedit_");
                reveal_strlit("toggle_");
                if has_prefix(component_id@, "toggle_"@) {
                    crate::strutil::lemma_prefix_char(component_id@, "toggle_"@, 1);
                    crate::strutil::lemma_prefix_char(component_id@, "textedit_"@, 1);
                }
            }
            list_insert(&mut self.changed_components, component_id);
            true
        } else if crate::strutil::starts_with_str(component_id, "toggle_") {
            list_insert(&mut self.clicked_components, component_id);
            list_insert(&mut self.changed_components, component_id);
            true
        } else {
            false
        }
    }
}

/// A widget id: the prefix followed by the issue position in decimal.
fn compose_id(prefix: &str, n: usize) -> (r: String)
    ensures
        r@ == prefix@ + dec_digits(n as nat),
{
    let mut s: String = prefix.to_owned();
    let digits = u64_string(n as u64);
    s.append(digits.as_str());
    s
}

/// A widget id: the prefix, the issue position, and the sanitised text.
fn compose_id_text(prefix: &str, n: usize, text: &str) -> (r: String)
    ensures
        r@ == prefix@ + dec_digits(n as nat) + "_"@ + underscored(text@),
{
    let mut s = compose_id(prefix, n);
    s.append("_");
    let tail = underscore_spaces(text);
    s.append(tail.as_str());
    s
}

} // verus!
