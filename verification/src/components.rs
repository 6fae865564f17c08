//! The retained component tree a plugin can build imperatively: typed
//! builder methods append widgets, typed references modify them afterwards,
//! and containers nest further components. Event dispatch resolves a
//! component id against the registered action ids.

use vstd::prelude::*;
use crate::dict::contains_str;
use crate::keyed::{key_index, lemma_key_index, lemma_key_index_at};
use crate::strutil::{has_prefix, str_eq};

verus! {

/// How a container lays out its children.
#[derive(Debug, Clone, Copy)]
pub enum ContainerLayout {
    Horizontal,
    Vertical,
    Grid { columns: u32 },
}

/// The component kinds of the tree.
#[derive(Debug)]
pub enum ComponentType {
    Button { label: String, icon: Option<String>, enabled: bool, action_id: String },
    TextField { hint: String, value: String, action_id: String },
    Text { value: String },
    Select { options: Vec<String>, selected: Option<String>, action_id: String },
    Container { layout: ContainerLayout, children: Vec<Component> },
}

/// One component of the tree.
#[derive(Debug)]
pub struct Component {
    pub id: String,
    pub component: ComponentType,
}

/// The ids of a component list, in order.
pub open spec fn comp_ids(s: Seq<Component>) -> Seq<Seq<char>> {
    s.map_values(|c: Component| c.id@)
}

/// The first component with the given id, if any.
pub open spec fn find_comp(s: Seq<Component>, id: Seq<char>) -> Option<Component> {
    let i = key_index(comp_ids(s), id);
    if i >= 0 {
        Some(s[i])
    } else {
        None
    }
}

/// Replacing the component at the position its id resolves to, keeping that
/// id, leaves every other id's lookup unchanged.
pub proof fn lemma_comp_update(pre: Seq<Component>, i: int, e: Component)
    requires
        0 <= i < pre.len(),
        e.id@ == pre[i].id@,
        key_index(comp_ids(pre), e.id@) == i,
    ensures
        find_comp(pre.update(i, e), e.id@) == Some(e),
        forall|k: Seq<char>| k != e.id@ ==> find_comp(pre.update(i, e), k) == find_comp(pre, k),
{
    let post = pre.update(i, e);
    assert(comp_ids(post) =~= comp_ids(pre));
    assert forall|k: Seq<char>| k != e.id@ implies find_comp(post, k) == find_comp(pre, k) by {
        lemma_key_index(comp_ids(pre), k);
        let r = key_index(comp_ids(pre), k);
        if r >= 0 {
            assert(comp_ids(pre)[r] == k);
            assert(r != i);
        }
    }
}

/// The update counter after one change notification.
pub open spec fn bumped(c: u64) -> u64 {
    if c == u64::MAX {
        0
    } else {
        (c + 1) as u64
    }
}

/// The retained tree plus the registered action ids. The update counter
/// stands in for the notify-on-change callback of the shell: every
/// successful mutation raises it by one.
#[derive(Debug)]
pub struct PluginUi {
    pub components: Vec<Component>,
    pub actions: Vec<String>,
    pub plugin_id: Option<String>,
    pub update_count: u64,
}

/// A reference to one component, by id.
#[derive(Debug)]
pub struct ComponentRef {
    pub id: String,
}

impl ComponentRef {
    /// A reference to the component with this id.
    pub fn new(id: String) -> (r: ComponentRef)
        ensures
            r.id == id,
    {
        ComponentRef { id }
    }
}

/// A reference to a button component.
#[derive(Debug)]
pub struct ButtonRef {
    pub id: String,
}

/// A reference to a text-field component.
#[derive(Debug)]
pub struct TextFieldRef {
    pub id: String,
}

/// A reference to a text component.
#[derive(Debug)]
pub struct TextRef {
    pub id: String,
}

/// A reference to a select component.
#[derive(Debug)]
pub struct SelectRef {
    pub id: String,
}

/// A reference to a container component.
#[derive(Debug)]
pub struct ContainerRef {
    pub id: String,
}

impl PluginUi {
    /// An empty tree.
    pub fn new() -> (r: PluginUi)
        ensures
            r.components@ =~= Seq::<Component>::empty(),
            r.actions@ =~= Seq::<String>::empty(),
            r.plugin_id is None,
            r.update_count == 0,
    {
        PluginUi { components: Vec::new(), actions: Vec::new(), plugin_id: None, update_count: 0 }
    }

    /// An empty tree that remembers which plugin it belongs to, so that
    /// change notifications can name it.
    pub fn new_with_plugin_id(plugin_id: &str) -> (r: PluginUi)
        ensures
            r.components@ =~= Seq::<Component>::empty(),
            r.actions@ =~= Seq::<String>::empty(),
            match r.plugin_id {
                Some(p) => p@ == plugin_id@,
                None => false,
            },
            r.update_count == 0,
    {
        PluginUi {
            components: Vec::new(),
            actions: Vec::new(),
            plugin_id: Some(plugin_id.to_owned()),
            update_count: 0,
        }
    }

    /// Count one change notification.
    fn notify_update(&mut self)
        ensures
            final(self).components == old(self).components,
            final(self).actions == old(self).actions,
            final(self).plugin_id == old(self).plugin_id,
            final(self).update_count == bumped(old(self).update_count),
    {
        self.update_count = self.update_count.wrapping_add(1);
    }

    /// The position of the first top-level component with this id.
    fn comp_pos(&self, id: &str) -> (r: Option<usize>)
        ensures
            match r {
                Some(i) => key_index(comp_ids(self.components@), id@) == i,
                None => key_index(comp_ids(self.components@), id@) == -1,
            },
    {
        let n = self.components.len();
        let mut i: usize = 0;
        while i < n
            invariant
                n == self.components@.len(),
                i <= n,
                forall|j: int| 0 <= j < i ==> comp_ids(self.components@)[j] != id@,
            decreases n - i,
        {
            if str_eq(self.components[i].id.as_str(), id) {
                proof {
                    lemma_key_index_at(comp_ids(self.components@), id@, i as int);
                }
                return Some(i);
            }
            i += 1;
        }
        proof {
            lemma_key_index(comp_ids(self.components@), id@);
            let r = key_index(comp_ids(self.components@), id@);
            if r >= 0 {
                assert(comp_ids(self.components@)[r] != id@);
            }
        }
        None
    }

    /// The first top-level component with this id, if any.
    pub fn find_component(&self, id: &str) -> (r: Option<&Component>)
        ensures
            match r {
                Some(c) => find_comp(self.components@, id@) == Some(*c),
                None => find_comp(self.components@, id@) is None,
            },
    {
        match self.comp_pos(id) {
            Some(i) => {
                proof {
                    lemma_key_index(comp_ids(self.components@), id@);
                }
                Some(&self.components[i])
            },
            None => None,
        }
    }

    /// Whether an action is registered for this component id. Dispatching
    /// the stored handler is the host application's part.
    pub fn handle_event(&self, component_id: &str, value: &str) -> (r: bool)
        ensures
            r == contains_str(self.actions@, component_id@),
    {
        let _ = value;
        crate::dict::list_contains(&self.actions, component_id)
    }

    /// The components of the tree, in order.
    pub fn get_components(&self) -> (r: &Vec<Component>)
        ensures
            r == &self.components,
    {
        &self.components
    }

    /// Drop every component and every registered action.
    pub fn clear_components(&mut self)
        ensures
            final(self).components@ =~= Seq::<Component>::empty(),
            final(self).actions@ =~= Seq::<String>::empty(),
            final(self).plugin_id == old(self).plugin_id,
            final(self).update_count == old(self).update_count,
    {
        self.components.clear();
        self.actions.clear();
    }

    /// Append a button and register its action id.
    pub fn button(&mut self, label: &str, icon: Option<&str>, enabled: bool) -> (r: ButtonRef)
        ensures
            has_prefix(r.id@, "btn_"@),
            final(self).components@.len() == old(self).components@.len() + 1,
            forall|j: int|
                0 <= j < old(self).components@.len() ==> final(self).components@[j] == old(
                    self,
                ).components@[j],
            final(self).components@.last().id@ == r.id@,
            match final(self).components@.last().component {
                ComponentType::Button { label: l, icon: ic, enabled: e, action_id } => {
                    &&& l@ == label@
                    &&& (match (ic, icon) {
                        (Some(a), Some(b)) => a@ == b@,
                        (None, None) => true,
                        _ => false,
                    })
                    &&& e == enabled
                    &&& action_id@ == r.id@
                },
                _ => false,
            },
            final(self).actions@ == old(self).actions@.push(r.id),
            final(self).plugin_id == old(self).plugin_id,
            final(self).update_count == old(self).update_count,
    {
        let id = fresh_id("btn_");
        self.actions.push(id.clone());
        let component = Component {
            id: id.clone(),
            component: ComponentType::Button {
                label: label.to_owned(),
                icon: match icon {
                    Some(s) => Some(s.to_owned()),
                    None => None,
                },
                enabled,
                action_id: id.clone(),
            },
        };
        self.components.push(component);
        ButtonRef { id }
    }

    /// Append a text field and register its action id.
    pub fn textfield(&mut self, hint: &str) -> (r: TextFieldRef)
        ensures
            has_prefix(r.id@, "txt_"@),
            final(self).components@.len() == old(self).components@.len() + 1,
            forall|j: int|
                0 <= j < old(self).components@.len() ==> final(self).components@[j] == old(
                    self,
                ).components@[j],
            final(self).components@.last().id@ == r.id@,
            match final(self).components@.last().component {
                ComponentType::TextField { hint: h, value, action_id } => h@ == hint@ && value@
                    == Seq::<char>::empty() && action_id@ == r.id@,
                _ => false,
            },
            final(self).actions@ == old(self).actions@.push(r.id),
            final(self).plugin_id == old(self).plugin_id,
            final(self).update_count == old(self).update_count,
    {
        let id = fresh_id("txt_");
        self.actions.push(id.clone());
        proof {
            reveal_strlit("");
        }
        let component = Component {
            id: id.clone(),
            component: ComponentType::TextField {
                hint: hint.to_owned(),
                value: String::new(),
                action_id: id.clone(),
            },
        };
        self.components.push(component);
        TextFieldRef { id }
    }

    /// Append a text display.
    pub fn text(&mut self, value: &str) -> (r: TextRef)
        ensures
            has_prefix(r.id@, "text_"@),
            final(self).components@.len() == old(self).components@.len() + 1,
            forall|j: int|
                0 <= j < old(self).components@.len() ==> final(self).components@[j] == old(
                    self,
                ).components@[j],
            final(self).components@.last().id@ == r.id@,
            match final(self).components@.last().component {
                ComponentType::Text { value: v } => v@ == value@,
                _ => false,
            },
            final(self).actions == old(self).actions,
            final(self).plugin_id == old(self).plugin_id,
            final(self).update_count == old(self).update_count,
    {
        let id = fresh_id("text_");
        let component = Component {
            id: id.clone(),
            component: ComponentType::Text { value: value.to_owned() },
        };
        self.components.push(component);
        TextRef { id }
    }

    /// Append a select box over the given options and register its action
    /// id. Nothing is selected initially.
    pub fn select(&mut self, options: Vec<&str>) -> (r: SelectRef)
        ensures
            has_prefix(r.id@, "select_"@),
            final(self).components@.len() == old(self).components@.len() + 1,
            forall|j: int|
                0 <= j < old(self).components@.len() ==> final(self).components@[j] == old(
                    self,
                ).components@[j],
            final(self).components@.last().id@ == r.id@,
            match final(self).components@.last().component {
                ComponentType::Select { options: o, selected, action_id } => {
                    &&& o@.len() == options@.len()
                    &&& forall|j: int| 0 <= j < o@.len() ==> o@[j]@ == options@[j]@
                    &&& selected is None
                    &&& action_id@ == r.id@
                },
                _ => false,
            },
            final(self).actions@ == old(self).actions@.push(r.id),
            final(self).plugin_id == old(self).plugin_id,
            final(self).update_count == old(self).update_count,
    {
        let id = fresh_id("select_");
        self.actions.push(id.clone());
        let mut owned: Vec<String> = Vec::new();
        let n = options.len();
        let mut i: usize = 0;
        while i < n
            invariant
                n == options@.len(),
                i <= n,
                owned@.len() == i,
                forall|j: int| 0 <= j < i ==> owned@[j]@ == options@[j]@,
            decreases n - i,
        {
            owned.push(options[i].to_owned());
            i += 1;
        }
        let component = Component {
            id: id.clone(),
            component: ComponentType::Select {
                options: owned,
                selected: None,
                action_id: id.clone(),
            },
        };
        self.components.push(component);
        SelectRef { id }
    }

    /// Append an empty container with the given layout.
    pub fn container(&mut self, layout: ContainerLayout) -> (r: ContainerRef)
        ensures
            has_prefix(r.id@, "container_"@),
            final(self).components@.len() == old(self).components@.len() + 1,
            forall|j: int|
                0 <= j < old(self).components@.len() ==> final(self).components@[j] == old(
                    self,
                ).components@[j],
            final(self).components@.last().id == r.id,
            match final(self).components@.last().component {
                ComponentType::Container { layout: l, children } => l == layout && children@
                    =~= Seq::<Component>::empty(),
                _ => false,
            },
            final(self).actions == old(self).actions,
            final(self).plugin_id == old(self).plugin_id,
            final(self).update_count == old(self).update_count,
    {
        let id = fresh_id("container_");
        let component = Component {
            id: id.clone(),
            component: ComponentType::Container { layout, children: Vec::new() },
        };
        self.components.push(component);
        ContainerRef { id }
    }

    /// Append an empty row container.
    pub fn horizontal_container(&mut self) -> (r: ContainerRef)
        ensures
            has_prefix(r.id@, "container_"@),
            final(self).components@.len() == old(self).components@.len() + 1,
            forall|j: int|
                0 <= j < old(self).components@.len() ==> final(self).components@[j] == old(
                    self,
                ).components@[j],
            final(self).components@.last().id == r.id,
            match final(self).components@.last().component {
                ComponentType::Container { layout, children } => layout is Horizontal
                    && children@ =~= Seq::<Component>::empty(),
                _ => false,
            },
            final(self).actions == old(self).actions,
            final(self).plugin_id == old(self).plugin_id,
            final(self).update_count == old(self).update_count,
    {
        self.container(ContainerLayout::Horizontal)
    }

    /// Append an empty column container.
    pub fn vertical_container(&mut self) -> (r: ContainerRef)
        ensures
            has_prefix(r.id@, "container_"@),
            final(self).components@.len() == old(self).components@.len() + 1,
            forall|j: int|
                0 <= j < old(self).components@.len() ==> final(self).components@[j] == old(
                    self,
                ).components@[j],
            final(self).components@.last().id == r.id,
            match final(self).components@.last().component {
                ComponentType::Container { layout, children } => layout is Vertical && children@
                    =~= Seq::<Component>::empty(),
                _ => false,
            },
            final(self).actions == old(self).actions,
            final(self).plugin_id == old(self).plugin_id,
            final(self).update_count == old(self).update_count,
    {
        self.container(ContainerLayout::Vertical)
    }

    /// Append an empty grid container with the given column count.
    pub fn grid_container(&mut self, columns: u32) -> (r: ContainerRef)
        ensures
            has_prefix(r.id@, "container_"@),
            final(self).components@.len() == old(self).components@.len() + 1,
            forall|j: int|
                0 <= j < old(self).components@.len() ==> final(self).components@[j] == old(
                    self,
                ).components@[j],
            final(self).components@.last().id == r.id,
            match final(self).components@.last().component {
                ComponentType::Container { layout, children } => layout == (
                ContainerLayout::Grid { columns }) && children@ =~= Seq::<Component>::empty(),
                _ => false,
            },
            final(self).actions == old(self).actions,
            final(self).plugin_id == old(self).plugin_id,
            final(self).update_count == old(self).update_count,
    {
        self.container(ContainerLayout::Grid { columns })
    }
}

/// Everything but the update counter is as in other.
pub open spec fn same_tree(a: &PluginUi, b: &PluginUi) -> bool {
    &&& a.components@ == b.components@
    &&& a.actions == b.actions
    &&& a.plugin_id == b.plugin_id
}

impl ButtonRef {
    /// Change the label of the referenced button. Reports false, changing
    /// nothing, when the id no longer names a top-level button.
    pub fn set_label(&self, ui: &mut PluginUi, label: &str) -> (r: bool)
        ensures
            final(ui).actions == old(ui).actions,
            final(ui).plugin_id == old(ui).plugin_id,
            comp_ids(final(ui).components@) == comp_ids(old(ui).components@),
            final(ui).update_count == (if r {
                bumped(old(ui).update_count)
            } else {
                old(ui).update_count
            }),
            forall|k: Seq<char>|
                k != self.id@ ==> find_comp(final(ui).components@, k) == find_comp(
                    old(ui).components@,
                    k,
                ),
            match find_comp(old(ui).components@, self.id@) {
                Some(c0) => match c0.component {
                    ComponentType::Button { label: l0, icon, enabled, action_id } => {
                        &&& r
                        &&& match find_comp(final(ui).components@, self.id@) {
                            Some(c1) => c1.id == c0.id && match c1.component {
                                ComponentType::Button {
                                    label: l,
                                    icon: ic,
                                    enabled: e,
                                    action_id: a,
                                } => l@ == label@ && ic == icon && e == enabled && a == action_id,
                                _ => false,
                            },
                            None => false,
                        }
                    },
                    _ => !r && same_tree(final(ui), old(ui)),
                },
                None => !r && same_tree(final(ui), old(ui)),
            },
    {
        match ui.comp_pos(self.id.as_str()) {
            Some(i) => {
                proof {
                    lemma_key_index(comp_ids(ui.components@), self.id@);
                }
                let slot = &mut ui.components[i];
                let ok = match &mut slot.component {
                    ComponentType::Button { label: l, .. } => {
                        *l = label.to_owned();
                        true
                    },
                    _ => false,
                };
                proof {
                    if !ok {
                        assert(ui.components@ =~= old(ui).components@);
                    } else {
                        lemma_comp_update(old(ui).components@, i as int, ui.components@[i as int]);
                        assert(comp_ids(ui.components@) =~= comp_ids(old(ui).components@));
                    }
                }
                if ok {
                    ui.notify_update();
                }
                ok
            },
            None => false,
        }
    }

    /// Enable or disable the referenced button. Reports false, changing
    /// nothing, when the id no longer names a top-level button.
    pub fn set_enabled(&self, ui: &mut PluginUi, enabled: bool) -> (r: bool)
        ensures
            final(ui).actions == old(ui).actions,
            final(ui).plugin_id == old(ui).plugin_id,
            comp_ids(final(ui).components@) == comp_ids(old(ui).components@),
            final(ui).update_count == (if r {
                bumped(old(ui).update_count)
            } else {
                old(ui).update_count
            }),
            forall|k: Seq<char>|
                k != self.id@ ==> find_comp(final(ui).components@, k) == find_comp(
                    old(ui).components@,
                    k,
                ),
            match find_comp(old(ui).components@, self.id@) {
                Some(c0) => match c0.component {
                    ComponentType::Button { label, icon, enabled: e0, action_id } => {
                        &&& r
                        &&& match find_comp(final(ui).components@, self.id@) {
                            Some(c1) => c1.id == c0.id && match c1.component {
                                ComponentType::Button {
                                    label: l,
                                    icon: ic,
                                    enabled: e,
                                    action_id: a,
                                } => l == label && ic == icon && e == enabled && a == action_id,
                                _ => false,
                            },
                            None => false,
                        }
                    },
                    _ => !r && same_tree(final(ui), old(ui)),
                },
                None => !r && same_tree(final(ui), old(ui)),
            },
    {
        match ui.comp_pos(self.id.as_str()) {
            Some(i) => {
                proof {
                    lemma_key_index(comp_ids(ui.components@), self.id@);
                }
                let slot = &mut ui.components[i];
                let ok = match &mut slot.component {
                    ComponentType::Button { enabled: e, .. } => {
                        *e = enabled;
                        true
                    },
                    _ => false,
                };
                proof {
                    if !ok {
                        assert(ui.components@ =~= old(ui).components@);
                    } else {
                        lemma_comp_update(old(ui).components@, i as int, ui.components@[i as int]);
                        assert(comp_ids(ui.components@) =~= comp_ids(old(ui).components@));
                    }
                }
                if ok {
                    ui.notify_update();
                }
                ok
            },
            None => false,
        }
    }
}

impl TextFieldRef {
    /// Change the value of the referenced text field. Reports false,
    /// changing nothing, when the id no longer names a top-level text field.
    pub fn set_value(&self, ui: &mut PluginUi, value: &str) -> (r: bool)
        ensures
            final(ui).actions == old(ui).actions,
            final(ui).plugin_id == old(ui).plugin_id,
            comp_ids(final(ui).components@) == comp_ids(old(ui).components@),
            final(ui).update_count == (if r {
                bumped(old(ui).update_count)
            } else {
                old(ui).update_count
            }),
            forall|k: Seq<char>|
                k != self.id@ ==> find_comp(final(ui).components@, k) == find_comp(
                    old(ui).components@,
                    k,
                ),
            match find_comp(old(ui).components@, self.id@) {
                Some(c0) => match c0.component {
                    ComponentType::TextField { hint, value: v0, action_id } => {
                        &&& r
                        &&& match find_comp(final(ui).components@, self.id@) {
                            Some(c1) => c1.id == c0.id && match c1.component {
                                ComponentType::TextField { hint: h, value: v, action_id: a } => h
                                    == hint && v@ == value@ && a == action_id,
                                _ => false,
                            },
                            None => false,
                        }
                    },
                    _ => !r && same_tree(final(ui), old(ui)),
                },
                None => !r && same_tree(final(ui), old(ui)),
            },
    {
        match ui.comp_pos(self.id.as_str()) {
            Some(i) => {
                proof {
                    lemma_key_index(comp_ids(ui.components@), self.id@);
                }
                let slot = &mut ui.components[i];
                let ok = match &mut slot.component {
                    ComponentType::TextField { value: v, .. } => {
                        *v = value.to_owned();
                        true
                    },
                    _ => false,
                };
                proof {
                    if !ok {
                        assert(ui.components@ =~= old(ui).components@);
                    } else {
                        lemma_comp_update(old(ui).components@, i as int, ui.components@[i as int]);
                        assert(comp_ids(ui.components@) =~= comp_ids(old(ui).components@));
                    }
                }
                if ok {
                    ui.notify_update();
                }
                ok
            },
            None => false,
        }
    }

    /// Change the hint of the referenced text field. Reports false,
    /// changing nothing, when the id no longer names a top-level text field.
    pub fn set_hint(&self, ui: &mut PluginUi, hint: &str) -> (r: bool)
        ensures
            final(ui).actions == old(ui).actions,
            final(ui).plugin_id == old(ui).plugin_id,
            comp_ids(final(ui).components@) == comp_ids(old(ui).components@),
            final(ui).update_count == (if r {
                bumped(old(ui).update_count)
            } else {
                old(ui).update_count
            }),
            forall|k: Seq<char>|
                k != self.id@ ==> find_comp(final(ui).components@, k) == find_comp(
                    old(ui).components@,
                    k,
                ),
            match find_comp(old(ui).components@, self.id@) {
                Some(c0) => match c0.component {
                    ComponentType::TextField { hint: h0, value, action_id } => {
                        &&& r
                        &&& match find_comp(final(ui).components@, self.id@) {
                            Some(c1) => c1.id == c0.id && match c1.component {
                                ComponentType::TextField { hint: h, value: v, action_id: a } => h@
                                    == hint@ && v == value && a == action_id,
                                _ => false,
                            },
                            None => false,
                        }
                    },
                    _ => !r && same_tree(final(ui), old(ui)),
                },
                None => !r && same_tree(final(ui), old(ui)),
            },
    {
        match ui.comp_pos(self.id.as_str()) {
            Some(i) => {
                proof {
                    lemma_key_index(comp_ids(ui.components@), self.id@);
                }
                let slot = &mut ui.components[i];
                let ok = match &mut slot.component {
                    ComponentType::TextField { hint: h, .. } => {
                        *h = hint.to_owned();
                        true
                    },
                    _ => false,
                };
                proof {
                    if !ok {
                        assert(ui.components@ =~= old(ui).components@);
                    } else {
                        lemma_comp_update(old(ui).components@, i as int, ui.components@[i as int]);
                        assert(comp_ids(ui.components@) =~= comp_ids(old(ui).components@));
                    }
                }
                if ok {
                    ui.notify_update();
                }
                ok
            },
            None => false,
        }
    }
}

impl TextRef {
    /// Change the shown text. Reports false, changing nothing, when the id
    /// no longer names a top-level text component.
    pub fn set_value(&self, ui: &mut PluginUi, value: &str) -> (r: bool)
        ensures
            final(ui).actions == old(ui).actions,
            final(ui).plugin_id == old(ui).plugin_id,
            comp_ids(final(ui).components@) == comp_ids(old(ui).components@),
            final(ui).update_count == (if r {
                bumped(old(ui).update_count)
            } else {
                old(ui).update_count
            }),
            forall|k: Seq<char>|
                k != self.id@ ==> find_comp(final(ui).components@, k) == find_comp(
                    old(ui).components@,
                    k,
                ),
            match find_comp(old(ui).components@, self.id@) {
                Some(c0) => match c0.component {
                    ComponentType::Text { value: v0 } => {
                        &&& r
                        &&& match find_comp(final(ui).components@, self.id@) {
                            Some(c1) => c1.id == c0.id && match c1.component {
                                ComponentType::Text { value: v } => v@ == value@,
                                _ => false,
                            },
                            None => false,
                        }
                    },
                    _ => !r && same_tree(final(ui), old(ui)),
                },
                None => !r && same_tree(final(ui), old(ui)),
            },
    {
        match ui.comp_pos(self.id.as_str()) {
            Some(i) => {
                proof {
                    lemma_key_index(comp_ids(ui.components@), self.id@);
                }
                let slot = &mut ui.components[i];
                let ok = match &mut slot.component {
                    ComponentType::Text { value: v } => {
                        *v = value.to_owned();
                        true
                    },
                    _ => false,
                };
                proof {
                    if !ok {
                        assert(ui.components@ =~= old(ui).components@);
                    } else {
                        lemma_comp_update(old(ui).components@, i as int, ui.components@[i as int]);
                        assert(comp_ids(ui.components@) =~= comp_ids(old(ui).components@));
                    }
                }
                if ok {
                    ui.notify_update();
                }
                ok
            },
            None => false,
        }
    }
}

impl SelectRef {
    /// Replace the option list of the referenced select box. Reports false,
    /// changing nothing, when the id no longer names a top-level select box.
    pub fn set_value(&self, ui: &mut PluginUi, options: Vec<&str>) -> (r: bool)
        ensures
            final(ui).actions == old(ui).actions,
            final(ui).plugin_id == old(ui).plugin_id,
            comp_ids(final(ui).components@) == comp_ids(old(ui).components@),
            final(ui).update_count == (if r {
                bumped(old(ui).update_count)
            } else {
                old(ui).update_count
            }),
            forall|k: Seq<char>|
                k != self.id@ ==> find_comp(final(ui).components@, k) == find_comp(
                    old(ui).components@,
                    k,
                ),
            match find_comp(old(ui).components@, self.id@) {
                Some(c0) => match c0.component {
                    ComponentType::Select { options: o0, selected, action_id } => {
                        &&& r
                        &&& match find_comp(final(ui).components@, self.id@) {
                            Some(c1) => c1.id == c0.id && match c1.component {
                                ComponentType::Select { options: o, selected: s, action_id: a } => {
                                    &&& o@.len() == options@.len()
                                    &&& forall|j: int| 0 <= j < o@.len() ==> o@[j]@ == options@[j]@
                                    &&& s == selected
                                    &&& a == action_id
                                },
                                _ => false,
                            },
                            None => false,
                        }
                    },
                    _ => !r && same_tree(final(ui), old(ui)),
                },
                None => !r && same_tree(final(ui), old(ui)),
            },
    {
        let mut owned: Vec<String> = Vec::new();
        let n = options.len();
        let mut i: usize = 0;
        while i < n
            invariant
                n == options@.len(),
                i <= n,
                owned@.len() == i,
                forall|j: int| 0 <= j < i ==> owned@[j]@ == options@[j]@,
            decreases n - i,
        {
            owned.push(options[i].to_owned());
            i += 1;
        }
        match ui.comp_pos(self.id.as_str()) {
            Some(p) => {
                proof {
                    lemma_key_index(comp_ids(ui.components@), self.id@);
                }
                let slot = &mut ui.components[p];
                let ok = match &mut slot.component {
                    ComponentType::Select { options: o, .. } => {
                        *o = owned;
                        true
                    },
                    _ => false,
                };
                proof {
                    if !ok {
                        assert(ui.components@ =~= old(ui).components@);
                    } else {
                        lemma_comp_update(old(ui).components@, p as int, ui.components@[p as int]);
                        assert(comp_ids(ui.components@) =~= comp_ids(old(ui).components@));
                    }
                }
                if ok {
                    ui.notify_update();
                }
                ok
            },
            None => false,
        }
    }

    /// Change the selection of the referenced select box. Reports false,
    /// changing nothing, when the id no longer names a top-level select box.
    pub fn set_selected(&self, ui: &mut PluginUi, selected: Option<&str>) -> (r: bool)
        ensures
            final(ui).actions == old(ui).actions,
            final(ui).plugin_id == old(ui).plugin_id,
            comp_ids(final(ui).components@) == comp_ids(old(ui).components@),
            final(ui).update_count == (if r {
                bumped(old(ui).update_count)
            } else {
                old(ui).update_count
            }),
            forall|k: Seq<char>|
                k != self.id@ ==> find_comp(final(ui).components@, k) == find_comp(
                    old(ui).components@,
                    k,
                ),
            match find_comp(old(ui).components@, self.id@) {
                Some(c0) => match c0.component {
                    ComponentType::Select { options, selected: s0, action_id } => {
                        &&& r
                        &&& match find_comp(final(ui).components@, self.id@) {
                            Some(c1) => c1.id == c0.id && match c1.component {
                                ComponentType::Select { options: o, selected: s, action_id: a } => {
                                    &&& o == options
                                    &&& (match (s, selected) {
                                        (Some(x), Some(y)) => x@ == y@,
                                        (None, None) => true,
                                        _ => false,
                                    })
                                    &&& a == action_id
                                },
                                _ => false,
                            },
                            None => false,
                        }
                    },
                    _ => !r && same_tree(final(ui), old(ui)),
                },
                None => !r && same_tree(final(ui), old(ui)),
            },
    {
        match ui.comp_pos(self.id.as_str()) {
            Some(p) => {
                proof {
                    lemma_key_index(comp_ids(ui.components@), self.id@);
                }
                let owned: Option<String> = match selected {
                    Some(s) => Some(s.to_owned()),
                    None => None,
                };
                let slot = &mut ui.components[p];
                let ok = match &mut slot.component {
                    ComponentType::Select { selected: s, .. } => {
                        *s = owned;
                        true
                    },
                    _ => false,
                };
                proof {
                    if !ok {
                        assert(ui.components@ =~= old(ui).components@);
                    } else {
                        lemma_comp_update(old(ui).components@, p as int, ui.components@[p as int]);
                        assert(comp_ids(ui.components@) =~= comp_ids(old(ui).components@));
                    }
                }
                if ok {
                    ui.notify_update();
                }
                ok
            },
            None => false,
        }
    }
}

impl ContainerRef {
    /// Append a child to the referenced container. Reports false, changing
    /// nothing, when the id no longer names a top-level container; the child
    /// is dropped in that case.
    pub fn add_child(&self, ui: &mut PluginUi, child: Component) -> (r: bool)
        ensures
            final(ui).actions == old(ui).actions,
            final(ui).plugin_id == old(ui).plugin_id,
            comp_ids(final(ui).components@) == comp_ids(old(ui).components@),
            final(ui).update_count == (if r {
                bumped(old(ui).update_count)
            } else {
                old(ui).update_count
            }),
            forall|k: Seq<char>|
                k != self.id@ ==> find_comp(final(ui).components@, k) == find_comp(
                    old(ui).components@,
                    k,
                ),
            match find_comp(old(ui).components@, self.id@) {
                Some(c0) => match c0.component {
                    ComponentType::Container { layout, children } => {
                        &&& r
                        &&& match find_comp(final(ui).components@, self.id@) {
                            Some(c1) => c1.id == c0.id && match c1.component {
                                ComponentType::Container { layout: l, children: ch } => l == layout
                                    && ch@ == children@.push(child),
                                _ => false,
                            },
                            None => false,
                        }
                    },
                    _ => !r && same_tree(final(ui), old(ui)),
                },
                None => !r && same_tree(final(ui), old(ui)),
            },
    {
        match ui.comp_pos(self.id.as_str()) {
            Some(i) => {
                proof {
                    lemma_key_index(comp_ids(ui.components@), self.id@);
                }
                let slot = &mut ui.components[i];
                let ok = match &mut slot.component {
                    ComponentType::Container { children, .. } => {
                        children.push(child);
                        true
                    },
                    _ => false,
                };
                proof {
                    if !ok {
                        assert(ui.components@ =~= old(ui).components@);
                    } else {
                        lemma_comp_update(old(ui).components@, i as int, ui.components@[i as int]);
                        assert(comp_ids(ui.components@) =~= comp_ids(old(ui).components@));
                    }
                }
                if ok {
                    ui.notify_update();
                }
                ok
            },
            None => false,
        }
    }

    /// Remove the child at the given position. Reports false, changing
    /// nothing, when the id no longer names a top-level container or the
    /// position is out of range.
    pub fn remove_child(&self, ui: &mut PluginUi, index: usize) -> (r: bool)
        ensures
            final(ui).actions == old(ui).actions,
            final(ui).plugin_id == old(ui).plugin_id,
            comp_ids(final(ui).components@) == comp_ids(old(ui).components@),
            final(ui).update_count == (if r {
                bumped(old(ui).update_count)
            } else {
                old(ui).update_count
            }),
            forall|k: Seq<char>|
                k != self.id@ ==> find_comp(final(ui).components@, k) == find_comp(
                    old(ui).components@,
                    k,
                ),
            match find_comp(old(ui).components@, self.id@) {
                Some(c0) => match c0.component {
                    ComponentType::Container { layout, children } => {
                        if index < children@.len() {
                            &&& r
                            &&& match find_comp(final(ui).components@, self.id@) {
                                Some(c1) => c1.id == c0.id && match c1.component {
                                    ComponentType::Container { layout: l, children: ch } => l
                                        == layout && ch@ == children@.remove(index as int),
                                    _ => false,
                                },
                                None => false,
                            }
                        } else {
                            !r && same_tree(final(ui), old(ui))
                        }
                    },
                    _ => !r && same_tree(final(ui), old(ui)),
                },
                None => !r && same_tree(final(ui), old(ui)),
            },
    {
        match ui.comp_pos(self.id.as_str()) {
            Some(i) => {
                proof {
                    lemma_key_index(comp_ids(ui.components@), self.id@);
                }
                let slot = &mut ui.components[i];
                let ok = match &mut slot.component {
                    ComponentType::Container { children, .. } => {
                        if index < children.len() {
                            children.remove(index);
                            true
                        } else {
                            false
                        }
                    },
                    _ => false,
                };
                proof {
                    if !ok {
                        assert(ui.components@ =~= old(ui).components@);
                    } else {
                        lemma_comp_update(old(ui).components@, i as int, ui.components@[i as int]);
                        assert(comp_ids(ui.components@) =~= comp_ids(old(ui).components@));
                    }
                }
                if ok {
                    ui.notify_update();
                }
                ok
            },
            None => false,
        }
    }

    /// Remove every child. Reports false, changing nothing, when the id no
    /// longer names a top-level container.
    pub fn clear_children(&self, ui: &mut PluginUi) -> (r: bool)
        ensures
            final(ui).actions == old(ui).actions,
            final(ui).plugin_id == old(ui).plugin_id,
            comp_ids(final(ui).components@) == comp_ids(old(ui).components@),
            final(ui).update_count == (if r {
                bumped(old(ui).update_count)
            } else {
                old(ui).update_count
            }),
            forall|k: Seq<char>|
                k != self.id@ ==> find_comp(final(ui).components@, k) == find_comp(
                    old(ui).components@,
                    k,
                ),
            match find_comp(old(ui).components@, self.id@) {
                Some(c0) => match c0.component {
                    ComponentType::Container { layout, children } => {
                        &&& r
                        &&& match find_comp(final(ui).components@, self.id@) {
                            Some(c1) => c1.id == c0.id && match c1.component {
                                ComponentType::Container { layout: l, children: ch } => l == layout
                                    && ch@ =~= Seq::<Component>::empty(),
                                _ => false,
                            },
                            None => false,
                        }
                    },
                    _ => !r && same_tree(final(ui), old(ui)),
                },
                None => !r && same_tree(final(ui), old(ui)),
            },
    {
        match ui.comp_pos(self.id.as_str()) {
            Some(i) => {
                proof {
                    lemma_key_index(comp_ids(ui.components@), self.id@);
                }
                let slot = &mut ui.components[i];
                let ok = match &mut slot.component {
                    ComponentType::Container { children, .. } => {
                        children.clear();
                        true
                    },
                    _ => false,
                };
                proof {
                    if !ok {
                        assert(ui.components@ =~= old(ui).components@);
                    } else {
                        lemma_comp_update(old(ui).components@, i as int, ui.components@[i as int]);
                        assert(comp_ids(ui.components@) =~= comp_ids(old(ui).components@));
                    }
                }
                if ok {
                    ui.notify_update();
                }
                ok
            },
            None => false,
        }
    }

    /// How many children the referenced container holds; 0 when the id does
    /// not name a top-level container.
    pub fn child_count(&self, ui: &PluginUi) -> (r: usize)
        ensures
            r == (match find_comp(ui.components@, self.id@) {
                Some(c0) => match c0.component {
                    ComponentType::Container { layout, children } => children@.len(),
                    _ => 0,
                },
                None => 0,
            }),
    {
        match ui.comp_pos(self.id.as_str()) {
            Some(i) => {
                proof {
                    lemma_key_index(comp_ids(ui.components@), self.id@);
                }
                match &ui.components[i].component {
                    ComponentType::Container { children, .. } => children.len(),
                    _ => 0,
                }
            },
            None => 0,
        }
    }
}

/// The effect of adding one component inside the child container nested in
/// a top-level parent container: the parent keeps its place and layout, the
/// nested container gains the component at the end, and everything else is
/// as before. When parent or nested container cannot be found the tree is
/// unchanged.
pub open spec fn nested_child_added(
    pre: Seq<Component>,
    post: Seq<Component>,
    parent_id: Seq<char>,
    child_id: Seq<char>,
    added: Component,
) -> bool {
    match find_comp(pre, parent_id) {
        Some(p0) => match p0.component {
            ComponentType::Container { layout, children } => {
                let ci = key_index(comp_ids(children@), child_id);
                if ci >= 0 && children@[ci].component is Container {
                    match find_comp(post, parent_id) {
                        Some(p1) => p1.id == p0.id && match p1.component {
                            ComponentType::Container { layout: l2, children: ch2 } => {
                                &&& l2 == layout
                                &&& ch2@.len() == children@.len()
                                &&& forall|j: int|
                                    0 <= j < children@.len() && j != ci ==> ch2@[j]
                                        == children@[j]
                                &&& ch2@[ci].id == children@[ci].id
                                &&& match (ch2@[ci].component, children@[ci].component) {
                                    (
                                        ComponentType::Container { layout: il2, children: n2 },
                                        ComponentType::Container { layout: il1, children: n1 },
                                    ) => il2 == il1 && n2@ == n1@.push(added),
                                    _ => false,
                                }
                            },
                            _ => false,
                        },
                        None => false,
                    }
                } else {
                    post == pre
                }
            },
            _ => post == pre,
        },
        None => post == pre,
    }
}

/// Whether the id names a top-level container.
pub open spec fn is_container_at(s: Seq<Component>, id: Seq<char>) -> bool {
    match find_comp(s, id) {
        Some(c0) => c0.component is Container,
        None => false,
    }
}

/// Whether a top-level parent container holds a nested container with the
/// given id.
pub open spec fn nested_target_exists(
    s: Seq<Component>,
    parent_id: Seq<char>,
    child_id: Seq<char>,
) -> bool {
    match find_comp(s, parent_id) {
        Some(p0) => match p0.component {
            ComponentType::Container { layout, children } => {
                let ci = key_index(comp_ids(children@), child_id);
                ci >= 0 && children@[ci].component is Container
            },
            _ => false,
        },
        None => false,
    }
}

/// The position of the first component with this id in a list.
fn position_of(list: &Vec<Component>, id: &str) -> (r: Option<usize>)
    ensures
        match r {
            Some(i) => key_index(comp_ids(list@), id@) == i,
            None => key_index(comp_ids(list@), id@) == -1,
        },
{
    let n = list.len();
    let mut i: usize = 0;
    while i < n
        invariant
            n == list@.len(),
            i <= n,
            forall|j: int| 0 <= j < i ==> comp_ids(list@)[j] != id@,
        decreases n - i,
    {
        if str_eq(list[i].id.as_str(), id) {
            proof {
                lemma_key_index_at(comp_ids(list@), id@, i as int);
            }
            return Some(i);
        }
        i += 1;
    }
    proof {
        lemma_key_index(comp_ids(list@), id@);
        let r = key_index(comp_ids(list@), id@);
        if r >= 0 {
            assert(comp_ids(list@)[r] != id@);
        }
    }
    None
}

/// A fluent helper that appends children to one top-level container.
#[derive(Debug)]
pub struct ContainerBuilder {
    pub container_ref: ContainerRef,
}

impl ContainerBuilder {
    /// A builder over the referenced container.
    pub fn new(container_ref: ContainerRef) -> (r: ContainerBuilder)
        ensures
            r.container_ref == container_ref,
    {
        ContainerBuilder { container_ref }
    }

    /// Append a button child, registering its action id. If the container
    /// is gone the button is dropped, though its action stays registered.
    pub fn add_button(self, ui: &mut PluginUi, label: &str, icon: Option<&str>, enabled: bool)
        -> (r: ContainerBuilder)
        ensures
            r.container_ref == self.container_ref,
            final(ui).plugin_id == old(ui).plugin_id,
            comp_ids(final(ui).components@) == comp_ids(old(ui).components@),
            final(ui).update_count == (if is_container_at(
                old(ui).components@,
                self.container_ref.id@,
            ) {
                bumped(old(ui).update_count)
            } else {
                old(ui).update_count
            }),
            final(ui).actions@.len() == old(ui).actions@.len() + 1,
            forall|j: int|
                0 <= j < old(ui).actions@.len() ==> final(ui).actions@[j] == old(ui).actions@[j],
            has_prefix(final(ui).actions@.last()@, "btn_"@),
            forall|k: Seq<char>|
                k != self.container_ref.id@ ==> find_comp(final(ui).components@, k) == find_comp(
                    old(ui).components@,
                    k,
                ),
            match find_comp(old(ui).components@, self.container_ref.id@) {
                Some(c0) => match c0.component {
                    ComponentType::Container { layout, children } => match find_comp(
                        final(ui).components@,
                        self.container_ref.id@,
                    ) {
                        Some(c1) => c1.id == c0.id && match c1.component {
                            ComponentType::Container { layout: l, children: ch } => {
                                &&& l == layout
                                &&& ch@.len() == children@.len() + 1
                                &&& forall|j: int|
                                    0 <= j < children@.len() ==> ch@[j] == children@[j]
                                &&& ch@.last().id@ == final(ui).actions@.last()@
                                &&& match ch@.last().component {
                                    ComponentType::Button {
                                        label: bl,
                                        icon: ic,
                                        enabled: e,
                                        action_id,
                                    } => {
                                        &&& bl@ == label@
                                        &&& (match (ic, icon) {
                                            (Some(a), Some(b)) => a@ == b@,
                                            (None, None) => true,
                                            _ => false,
                                        })
                                        &&& e == enabled
                                        &&& action_id@ == final(ui).actions@.last()@
                                    },
                                    _ => false,
                                }
                            },
                            _ => false,
                        },
                        None => false,
                    },
                    _ => final(ui).components@ == old(ui).components@,
                },
                None => final(ui).components@ == old(ui).components@,
            },
    {
        let _bref = ui.button(label, icon, enabled);
        let child = pop_last(&mut ui.components);
        proof {
            assert(ui.components@ =~= old(ui).components@);
            assert(comp_ids(ui.components@) =~= comp_ids(old(ui).components@));
        }
        let _ = self.container_ref.add_child(ui, child);
        ContainerBuilder { container_ref: self.container_ref }
    }

    /// Append a text child. If the container is gone the text is dropped.
    pub fn add_text(self, ui: &mut PluginUi, value: &str) -> (r: ContainerBuilder)
        ensures
            r.container_ref == self.container_ref,
            final(ui).plugin_id == old(ui).plugin_id,
            comp_ids(final(ui).components@) == comp_ids(old(ui).components@),
            final(ui).update_count == (if is_container_at(
                old(ui).components@,
                self.container_ref.id@,
            ) {
                bumped(old(ui).update_count)
            } else {
                old(ui).update_count
            }),
            final(ui).actions == old(ui).actions,
            forall|k: Seq<char>|
                k != self.container_ref.id@ ==> find_comp(final(ui).components@, k) == find_comp(
                    old(ui).components@,
                    k,
                ),
            match find_comp(old(ui).components@, self.container_ref.id@) {
                Some(c0) => match c0.component {
                    ComponentType::Container { layout, children } => match find_comp(
                        final(ui).components@,
                        self.container_ref.id@,
                    ) {
                        Some(c1) => c1.id == c0.id && match c1.component {
                            ComponentType::Container { layout: l, children: ch } => {
                                &&& l == layout
                                &&& ch@.len() == children@.len() + 1
                                &&& forall|j: int|
                                    0 <= j < children@.len() ==> ch@[j] == children@[j]
                                &&& match ch@.last().component {
                                    ComponentType::Text { value: v } => v@ == value@,
                                    _ => false,
                                }
                            },
                            _ => false,
                        },
                        None => false,
                    },
                    _ => final(ui).components@ == old(ui).components@,
                },
                None => final(ui).components@ == old(ui).components@,
            },
    {
        let _tref = ui.text(value);
        let child = pop_last(&mut ui.components);
        proof {
            assert(ui.components@ =~= old(ui).components@);
            assert(comp_ids(ui.components@) =~= comp_ids(old(ui).components@));
        }
        let _ = self.container_ref.add_child(ui, child);
        ContainerBuilder { container_ref: self.container_ref }
    }

    /// Append a text-field child, registering its action id. If the
    /// container is gone the field is dropped, though its action stays
    /// registered.
    pub fn add_textfield(self, ui: &mut PluginUi, hint: &str) -> (r: ContainerBuilder)
        ensures
            r.container_ref == self.container_ref,
            final(ui).plugin_id == old(ui).plugin_id,
            comp_ids(final(ui).components@) == comp_ids(old(ui).components@),
            final(ui).update_count == (if is_container_at(
                old(ui).components@,
                self.container_ref.id@,
            ) {
                bumped(old(ui).update_count)
            } else {
                old(ui).update_count
            }),
            final(ui).actions@.len() == old(ui).actions@.len() + 1,
            forall|j: int|
                0 <= j < old(ui).actions@.len() ==> final(ui).actions@[j] == old(ui).actions@[j],
            has_prefix(final(ui).actions@.last()@, "txt_"@),
            forall|k: Seq<char>|
                k != self.container_ref.id@ ==> find_comp(final(ui).components@, k) == find_comp(
                    old(ui).components@,
                    k,
                ),
            match find_comp(old(ui).components@, self.container_ref.id@) {
                Some(c0) => match c0.component {
                    ComponentType::Container { layout, children } => match find_comp(
                        final(ui).components@,
                        self.container_ref.id@,
                    ) {
                        Some(c1) => c1.id == c0.id && match c1.component {
                            ComponentType::Container { layout: l, children: ch } => {
                                &&& l == layout
                                &&& ch@.len() == children@.len() + 1
                                &&& forall|j: int|
                                    0 <= j < children@.len() ==> ch@[j] == children@[j]
                                &&& match ch@.last().component {
                                    ComponentType::TextField { hint: h, value, action_id } => h@
                                        == hint@ && value@ == Seq::<char>::empty() && action_id@
                                        == final(ui).actions@.last()@,
                                    _ => false,
                                }
                            },
                            _ => false,
                        },
                        None => false,
                    },
                    _ => final(ui).components@ == old(ui).components@,
                },
                None => final(ui).components@ == old(ui).components@,
            },
    {
        let _fref = ui.textfield(hint);
        let child = pop_last(&mut ui.components);
        proof {
            assert(ui.components@ =~= old(ui).components@);
            assert(comp_ids(ui.components@) =~= comp_ids(old(ui).components@));
        }
        let _ = self.container_ref.add_child(ui, child);
        ContainerBuilder { container_ref: self.container_ref }
    }

    /// Append a select child over the given options, registering its action
    /// id. If the container is gone the select box is dropped, though its
    /// action stays registered.
    pub fn add_select(self, ui: &mut PluginUi, options: Vec<&str>) -> (r: ContainerBuilder)
        ensures
            r.container_ref == self.container_ref,
            final(ui).plugin_id == old(ui).plugin_id,
            comp_ids(final(ui).components@) == comp_ids(old(ui).components@),
            final(ui).update_count == (if is_container_at(
                old(ui).components@,
                self.container_ref.id@,
            ) {
                bumped(old(ui).update_count)
            } else {
                old(ui).update_count
            }),
            final(ui).actions@.len() == old(ui).actions@.len() + 1,
            forall|j: int|
                0 <= j < old(ui).actions@.len() ==> final(ui).actions@[j] == old(ui).actions@[j],
            has_prefix(final(ui).actions@.last()@, "select_"@),
            forall|k: Seq<char>|
                k != self.container_ref.id@ ==> find_comp(final(ui).components@, k) == find_comp(
                    old(ui).components@,
                    k,
                ),
            match find_comp(old(ui).components@, self.container_ref.id@) {
                Some(c0) => match c0.component {
                    ComponentType::Container { layout, children } => match find_comp(
                        final(ui).components@,
                        self.container_ref.id@,
                    ) {
                        Some(c1) => c1.id == c0.id && match c1.component {
                            ComponentType::Container { layout: l, children: ch } => {
                                &&& l == layout
                                &&& ch@.len() == children@.len() + 1
                                &&& forall|j: int|
                                    0 <= j < children@.len() ==> ch@[j] == children@[j]
                                &&& match ch@.last().component {
                                    ComponentType::Select { options: o, selected, action_id } => {
                                        &&& o@.len() == options@.len()
                                        &&& forall|j: int|
                                            0 <= j < o@.len() ==> o@[j]@ == options@[j]@
                                        &&& selected is None
                                        &&& action_id@ == final(ui).actions@.last()@
                                    },
                                    _ => false,
                                }
                            },
                            _ => false,
                        },
                        None => false,
                    },
                    _ => final(ui).components@ == old(ui).components@,
                },
                None => final(ui).components@ == old(ui).components@,
            },
    {
        let _sref = ui.select(options);
        let child = pop_last(&mut ui.components);
        proof {
            assert(ui.components@ =~= old(ui).components@);
            assert(comp_ids(ui.components@) =~= comp_ids(old(ui).components@));
        }
        let _ = self.container_ref.add_child(ui, child);
        ContainerBuilder { container_ref: self.container_ref }
    }

    /// Append an empty nested container and switch to building inside it.
    pub fn add_container(self, ui: &mut PluginUi, layout: ContainerLayout) -> (r:
        NestedContainerBuilder)
        ensures
            r.parent_container_ref == self.container_ref,
            has_prefix(r.child_container_id@, "container_"@),
            final(ui).plugin_id == old(ui).plugin_id,
            comp_ids(final(ui).components@) == comp_ids(old(ui).components@),
            final(ui).update_count == (if is_container_at(
                old(ui).components@,
                self.container_ref.id@,
            ) {
                bumped(old(ui).update_count)
            } else {
                old(ui).update_count
            }),
            final(ui).actions == old(ui).actions,
            forall|k: Seq<char>|
                k != self.container_ref.id@ ==> find_comp(final(ui).components@, k) == find_comp(
                    old(ui).components@,
                    k,
                ),
            match find_comp(old(ui).components@, self.container_ref.id@) {
                Some(c0) => match c0.component {
                    ComponentType::Container { layout: l0, children } => match find_comp(
                        final(ui).components@,
                        self.container_ref.id@,
                    ) {
                        Some(c1) => c1.id == c0.id && match c1.component {
                            ComponentType::Container { layout: l, children: ch } => {
                                &&& l == l0
                                &&& ch@.len() == children@.len() + 1
                                &&& forall|j: int|
                                    0 <= j < children@.len() ==> ch@[j] == children@[j]
                                &&& ch@.last().id == r.child_container_id
                                &&& match ch@.last().component {
                                    ComponentType::Container { layout: cl, children: cc } => cl
                                        == layout && cc@ =~= Seq::<Component>::empty(),
                                    _ => false,
                                }
                            },
                            _ => false,
                        },
                        None => false,
                    },
                    _ => final(ui).components@ == old(ui).components@,
                },
                None => final(ui).components@ == old(ui).components@,
            },
    {
        let child_id = fresh_id("container_");
        let child = Component {
            id: child_id.clone(),
            component: ComponentType::Container { layout, children: Vec::new() },
        };
        let _ = self.container_ref.add_child(ui, child);
        NestedContainerBuilder {
            parent_container_ref: self.container_ref,
            child_container_id: child_id,
        }
    }

    /// Finish building and return the container reference.
    pub fn build(self) -> (r: ContainerRef)
        ensures
            r == self.container_ref,
    {
        self.container_ref
    }
}

/// A fluent helper that appends children to a container nested inside a
/// top-level container.
#[derive(Debug)]
pub struct NestedContainerBuilder {
    pub parent_container_ref: ContainerRef,
    pub child_container_id: String,
}

impl NestedContainerBuilder {
    /// A builder over the container with child_container_id nested in the
    /// referenced parent.
    pub fn new(parent_container_ref: ContainerRef, child_container_id: String) -> (r:
        NestedContainerBuilder)
        ensures
            r.parent_container_ref == parent_container_ref,
            r.child_container_id == child_container_id,
    {
        NestedContainerBuilder { parent_container_ref, child_container_id }
    }

    /// Append one component inside the nested container. When the parent or
    /// the nested container cannot be found the component is dropped.
    pub fn add_child_to_nested_container(&self, ui: &mut PluginUi, child: Component)
        ensures
            final(ui).actions == old(ui).actions,
            final(ui).plugin_id == old(ui).plugin_id,
            comp_ids(final(ui).components@) == comp_ids(old(ui).components@),
            final(ui).update_count == (if nested_target_exists(
                old(ui).components@,
                self.parent_container_ref.id@,
                self.child_container_id@,
            ) {
                bumped(old(ui).update_count)
            } else {
                old(ui).update_count
            }),
            forall|k: Seq<char>|
                k != self.parent_container_ref.id@ ==> find_comp(final(ui).components@, k)
                    == find_comp(old(ui).components@, k),
            nested_child_added(
                old(ui).components@,
                final(ui).components@,
                self.parent_container_ref.id@,
                self.child_container_id@,
                child,
            ),
    {
        let pi = match ui.comp_pos(self.parent_container_ref.id.as_str()) {
            Some(i) => i,
            None => {
                return;
            },
        };
        proof {
            lemma_key_index(comp_ids(ui.components@), self.parent_container_ref.id@);
        }
        let (found, ci): (bool, usize) = match &ui.components[pi].component {
            ComponentType::Container { children, .. } => {
                match position_of(children, self.child_container_id.as_str()) {
                    Some(ci) => {
                        proof {
                            lemma_key_index(comp_ids(children@), self.child_container_id@);
                        }
                        let is_container = match &children[ci].component {
                            ComponentType::Container { .. } => true,
                            _ => false,
                        };
                        (is_container, ci)
                    },
                    None => (false, 0),
                }
            },
            _ => (false, 0),
        };
        if !found {
            return;
        }
        let slot = &mut ui.components[pi];
        match &mut slot.component {
            ComponentType::Container { children, .. } => {
                let inner = &mut children[ci];
                match &mut inner.component {
                    ComponentType::Container { children: nested, .. } => {
                        nested.push(child);
                    },
                    _ => {
                        proof {
                            assert(false);
                        }
                    },
                }
            },
            _ => {
                proof {
                    assert(false);
                }
            },
        }
        proof {
            lemma_comp_update(old(ui).components@, pi as int, ui.components@[pi as int]);
            assert(comp_ids(ui.components@) =~= comp_ids(old(ui).components@));
        }
        ui.notify_update();
    }

    /// Append a button inside the nested container, registering its action.
    pub fn add_button(self, ui: &mut PluginUi, label: &str, icon: Option<&str>, enabled: bool)
        -> (r: NestedContainerBuilder)
        ensures
            r.parent_container_ref == self.parent_container_ref,
            r.child_container_id == self.child_container_id,
            final(ui).plugin_id == old(ui).plugin_id,
            comp_ids(final(ui).components@) == comp_ids(old(ui).components@),
            final(ui).update_count == (if nested_target_exists(
                old(ui).components@,
                self.parent_container_ref.id@,
                self.child_container_id@,
            ) {
                bumped(old(ui).update_count)
            } else {
                old(ui).update_count
            }),
            final(ui).actions@.len() == old(ui).actions@.len() + 1,
            forall|j: int|
                0 <= j < old(ui).actions@.len() ==> final(ui).actions@[j] == old(ui).actions@[j],
            forall|k: Seq<char>|
                k != self.parent_container_ref.id@ ==> find_comp(final(ui).components@, k)
                    == find_comp(old(ui).components@, k),
            exists|c: Component|
                #[trigger] nested_child_added(
                    old(ui).components@,
                    final(ui).components@,
                    self.parent_container_ref.id@,
                    self.child_container_id@,
                    c,
                ) && (match c.component {
                    ComponentType::Button { label: bl, icon: ic, enabled: e, action_id } => {
                        &&& bl@ == label@
                        &&& (match (ic, icon) {
                            (Some(a), Some(b)) => a@ == b@,
                            (None, None) => true,
                            _ => false,
                        })
                        &&& e == enabled
                        &&& action_id@ == final(ui).actions@.last()@
                    },
                    _ => false,
                }),
    {
        let action_id = self.nested_id("_btn_");
        ui.actions.push(action_id.clone());
        let component = Component {
            id: self.nested_id("_btn_"),
            component: ComponentType::Button {
                label: label.to_owned(),
                icon: match icon {
                    Some(s) => Some(s.to_owned()),
                    None => None,
                },
                enabled,
                action_id,
            },
        };
        let ghost gc = component;
        self.add_child_to_nested_container(ui, component);
        proof {
            assert(nested_child_added(
                old(ui).components@,
                ui.components@,
                self.parent_container_ref.id@,
                self.child_container_id@,
                gc,
            ));
        }
        NestedContainerBuilder {
            parent_container_ref: self.parent_container_ref,
            child_container_id: self.child_container_id,
        }
    }

    /// Append a text display inside the nested container.
    pub fn add_text(self, ui: &mut PluginUi, value: &str) -> (r: NestedContainerBuilder)
        ensures
            r.parent_container_ref == self.parent_container_ref,
            r.child_container_id == self.child_container_id,
            final(ui).plugin_id == old(ui).plugin_id,
            comp_ids(final(ui).components@) == comp_ids(old(ui).components@),
            final(ui).update_count == (if nested_target_exists(
                old(ui).components@,
                self.parent_container_ref.id@,
                self.child_container_id@,
            ) {
                bumped(old(ui).update_count)
            } else {
                old(ui).update_count
            }),
            final(ui).actions == old(ui).actions,
            forall|k: Seq<char>|
                k != self.parent_container_ref.id@ ==> find_comp(final(ui).components@, k)
                    == find_comp(old(ui).components@, k),
            exists|c: Component|
                #[trigger] nested_child_added(
                    old(ui).components@,
                    final(ui).components@,
                    self.parent_container_ref.id@,
                    self.child_container_id@,
                    c,
                ) && (match c.component {
                    ComponentType::Text { value: v } => v@ == value@,
                    _ => false,
                }),
    {
        let component = Component {
            id: self.nested_id("_text_"),
            component: ComponentType::Text { value: value.to_owned() },
        };
        let ghost gc = component;
        self.add_child_to_nested_container(ui, component);
        proof {
            assert(nested_child_added(
                old(ui).components@,
                ui.components@,
                self.parent_container_ref.id@,
                self.child_container_id@,
                gc,
            ));
        }
        NestedContainerBuilder {
            parent_container_ref: self.parent_container_ref,
            child_container_id: self.child_container_id,
        }
    }

    /// Finish building and return the parent container reference.
    pub fn build(self) -> (r: ContainerRef)
        ensures
            r == self.parent_container_ref,
    {
        self.parent_container_ref
    }

    /// A fresh id scoped under the nested container's id.
    fn nested_id(&self, tag: &str) -> (r: String) {
        let mut s = self.child_container_id.clone();
        s.append(tag);
        let tail = crate::sys::fresh_uuid();
        s.append(tail.as_str());
        s
    }
}

impl PluginUi {
    /// Append an empty row container and start building its children.
    pub fn build_horizontal_container(&mut self) -> (r: ContainerBuilder)
        ensures
            has_prefix(r.container_ref.id@, "container_"@),
            final(self).components@.len() == old(self).components@.len() + 1,
            forall|j: int|
                0 <= j < old(self).components@.len() ==> final(self).components@[j] == old(
                    self,
                ).components@[j],
            final(self).components@.last().id == r.container_ref.id,
            match final(self).components@.last().component {
                ComponentType::Container { layout, children } => layout is Horizontal
                    && children@ =~= Seq::<Component>::empty(),
                _ => false,
            },
            final(self).actions == old(self).actions,
            final(self).plugin_id == old(self).plugin_id,
            final(self).update_count == old(self).update_count,
    {
        let container_ref = self.horizontal_container();
        ContainerBuilder { container_ref }
    }

    /// Append an empty column container and start building its children.
    pub fn build_vertical_container(&mut self) -> (r: ContainerBuilder)
        ensures
            has_prefix(r.container_ref.id@, "container_"@),
            final(self).components@.len() == old(self).components@.len() + 1,
            forall|j: int|
                0 <= j < old(self).components@.len() ==> final(self).components@[j] == old(
                    self,
                ).components@[j],
            final(self).components@.last().id == r.container_ref.id,
            match final(self).components@.last().component {
                ComponentType::Container { layout, children } => layout is Vertical && children@
                    =~= Seq::<Component>::empty(),
                _ => false,
            },
            final(self).actions == old(self).actions,
            final(self).plugin_id == old(self).plugin_id,
            final(self).update_count == old(self).update_count,
    {
        let container_ref = self.vertical_container();
        ContainerBuilder { container_ref }
    }

    /// Append an empty grid container and start building its children.
    pub fn build_grid_container(&mut self, columns: u32) -> (r: ContainerBuilder)
        ensures
            has_prefix(r.container_ref.id@, "container_"@),
            final(self).components@.len() == old(self).components@.len() + 1,
            forall|j: int|
                0 <= j < old(self).components@.len() ==> final(self).components@[j] == old(
                    self,
                ).components@[j],
            final(self).components@.last().id == r.container_ref.id,
            match final(self).components@.last().component {
                ComponentType::Container { layout, children } => layout == (
                ContainerLayout::Grid { columns }) && children@ =~= Seq::<Component>::empty(),
                _ => false,
            },
            final(self).actions == old(self).actions,
            final(self).plugin_id == old(self).plugin_id,
            final(self).update_count == old(self).update_count,
    {
        let container_ref = self.grid_container(columns);
        ContainerBuilder { container_ref }
    }
}

/// Remove and return the last component of a nonempty list.
fn pop_last(v: &mut Vec<Component>) -> (r: Component)
    requires
        old(v)@.len() > 0,
    ensures
        r == old(v)@.last(),
        final(v)@ == old(v)@.drop_last(),
{
    let n = v.len();
    match v.pop() {
        Some(c) => c,
        None => {
            proof {
                assert(false);
            }
            Component { id: String::new(), component: ComponentType::Text { value: String::new() } }
        },
    }
}

/// A fresh component id: the kind prefix followed by a random UUID.
fn fresh_id(prefix: &str) -> (r: String)
    ensures
        has_prefix(r@, prefix@),
{
    let mut s: String = prefix.to_owned();
    let tail = crate::sys::fresh_uuid();
    s.append(tail.as_str());
    proof {
        assert(s@.subrange(0, prefix@.len() as int) =~= prefix@);
    }
    s
}

} // verus!
