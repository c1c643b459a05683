use crate::errors::{ActionError, IdError};
use crate::id::{ActionId, VarId};
use crate::object_store::ObjectStoreContent;
use crate::object_store_filtered::ObjectStoreFiltered;
use crate::statedata::StateData;
use crate::statedata_filtered::StateDataFiltered;
use crate::step::Step;
use crate::string_template::{
    html_attribute_encoded, html_encode_attribute, percent_encode, percent_encoded, placeholder,
    render_template, rendered, replaced, EscapedString,
};
use crate::text::{decimal_text, owned};
use crate::uri::{joined_uri, uri_join_relative};
use crate::value::{StringValue, TrueValue, UriValue, Value, ValueKind};
use crate::var::Var;
use vstd::prelude::*;
use vstd::string::StringExecFns;

verus! {

/// The result of [`Action::start`]
#[derive(Debug)]
pub enum ActionResult {
    /// The action needs the caller to fulfill the step's outputs. What the
    /// value means depends on the action.
    StartWith(Value),
    /// The action fulfilled the outputs with the data given.
    Finished(StateData),
    /// The action could not fulfill the outputs for an ordinary reason, such
    /// as a minimum number of attempts. Not for errors.
    CannotFulfill,
}

impl ActionResult {
    /// Two results are alike when they are of the same variant and hold
    /// alike values or alike data.
    pub open spec fn alike(&self, other: &ActionResult) -> bool {
        match (*self, *other) {
            (ActionResult::StartWith(val), ActionResult::StartWith(val_other)) => val.alike(
                &val_other,
            ),
            (ActionResult::Finished(data), ActionResult::Finished(data_other)) => data.alike(
                &data_other,
            ),
            (ActionResult::CannotFulfill, ActionResult::CannotFulfill) => true,
            _ => false,
        }
    }

    /// Whether two results are alike.
    pub fn eq_result(&self, other: &ActionResult) -> (b: bool)
        ensures
            b == self.alike(other),
    {
        match (self, other) {
            (ActionResult::StartWith(val), ActionResult::StartWith(val_other)) => val.eq_box(
                val_other,
            ),
            (ActionResult::Finished(data), ActionResult::Finished(data_other)) => data.eq_data(
                data_other,
            ),
            (ActionResult::CannotFulfill, ActionResult::CannotFulfill) => true,
            _ => false,
        }
    }
}

impl PartialEq for ActionResult {
    fn eq(&self, other: &Self) -> (b: bool) {
        self.eq_result(other)
    }
}

impl vstd::std_specs::cmp::PartialEqSpecImpl for ActionResult {
    open spec fn obeys_eq_spec() -> bool {
        true
    }

    open spec fn eq_spec(&self, other: &Self) -> bool {
        self.alike(other)
    }
}

/// `Action`s fulfill the outputs of a [`Step`]
pub trait Action {
    /// The identity of the action.
    spec fn action_id(&self) -> ActionId;

    /// Get the ID for the Action
    fn id(&self) -> (id: &ActionId)
        ensures
            *id == self.action_id(),
    ;

    /// Start the action for a [`Step`]
    ///
    /// `step_data` and `vars` show only what the step declares as input or
    /// output.
    fn start(
        &mut self,
        step: &Step,
        step_name: Option<&str>,
        step_data: &StateDataFiltered,
        vars: &ObjectStoreFiltered<Var, VarId>,
    ) -> (r: Result<ActionResult, ActionError>);
}

impl ObjectStoreContent for Box<dyn Action> {
    type IdType = ActionId;

    open spec fn id_of(&self) -> ActionId {
        self.action_id()
    }

    fn new_id(id_val: u32) -> (id: ActionId) {
        ActionId::new(id_val)
    }

    fn id(&self) -> (id: &ActionId) {
        (**self).id()
    }
}

/// Action that sets output data after a set number of attempts
#[derive(Debug)]
pub struct SetDataAction {
    id: ActionId,
    count: u64,
    after_attempt: u64,
    data: StateData,
}

impl SetDataAction {
    /// How often the action was started without giving its data.
    pub closed spec fn attempts(&self) -> u64 {
        self.count
    }

    /// How many attempts must fail before the data is given.
    pub closed spec fn wanted_attempts(&self) -> u64 {
        self.after_attempt
    }

    /// The data that the action gives.
    pub closed spec fn data(&self) -> Map<VarId, crate::statedata::ValidVal> {
        self.data@
    }

    /// `data` is returned as [`ActionResult::Finished`] after `after_attempt` number of tries.
    /// If `after_attempt` is set to zero, it will set the data on the first call to `start`.
    pub fn new(id: ActionId, data: StateData, after_attempt: u64) -> (action: Self)
        ensures
            action.action_id() == id,
            action.attempts() == 0,
            action.wanted_attempts() == after_attempt,
            action.data() == data@,
    {
        SetDataAction { id, count: 0, after_attempt, data }
    }

    /// The action as a trait object, as a registry of actions holds it: it
    /// is this action, under the same identity.
    pub fn boxed(self) -> (boxed: Box<dyn Action>)
        ensures
            boxed.action_id() == self.action_id(),
    {
        return Box::new(self);
    }
}

impl Action for SetDataAction {
    closed spec fn action_id(&self) -> ActionId {
        self.id
    }

    fn id(&self) -> (id: &ActionId) {
        &self.id
    }

    fn start(
        &mut self,
        _step: &Step,
        _step_name: Option<&str>,
        _step_data: &StateDataFiltered,
        _vars: &ObjectStoreFiltered<Var, VarId>,
    ) -> (r: Result<ActionResult, ActionError>)
        ensures
            final(self).action_id() == old(self).action_id(),
            final(self).wanted_attempts() == old(self).wanted_attempts(),
            final(self).data() == old(self).data(),
            old(self).attempts() >= old(self).wanted_attempts() ==> (r matches Ok(
                ActionResult::Finished(data),
            ) && data@ == old(self).data()) && final(self).attempts() == old(self).attempts(),
            old(self).attempts() < old(self).wanted_attempts() ==> (r matches Ok(
                ActionResult::CannotFulfill,
            )) && final(self).attempts() == old(self).attempts() + 1,
    {
        if self.count >= self.after_attempt {
            Ok(ActionResult::Finished(self.data.clone()))
        } else {
            self.count += 1;
            Ok(ActionResult::CannotFulfill)
        }
    }
}

/// An action that always answers the same: it asks the caller to go on
/// with the sentinel value, or it finishes with no data.
#[derive(Debug)]
pub struct TestAction {
    id: ActionId,
    return_start_with: bool,
}

impl TestAction {
    /// Whether the action asks the caller to go on.
    pub closed spec fn starts(&self) -> bool {
        self.return_start_with
    }

    pub fn new_with_id(id: ActionId, return_start_with: bool) -> (action: Self)
        ensures
            action.action_id() == id,
            action.starts() == return_start_with,
    {
        TestAction { id, return_start_with }
    }

    /// The action as a trait object, as a registry of actions holds it: it
    /// is this action, under the same identity.
    pub fn boxed(self) -> (boxed: Box<dyn Action>)
        ensures
            boxed.action_id() == self.action_id(),
    {
        return Box::new(self);
    }
}

impl Action for TestAction {
    closed spec fn action_id(&self) -> ActionId {
        self.id
    }

    fn id(&self) -> (id: &ActionId) {
        &self.id
    }

    fn start(
        &mut self,
        _step: &Step,
        _step_name: Option<&str>,
        _step_data: &StateDataFiltered,
        _vars: &ObjectStoreFiltered<Var, VarId>,
    ) -> (r: Result<ActionResult, ActionError>)
        ensures
            *final(self) == *old(self),
            old(self).starts() ==> (r matches Ok(ActionResult::StartWith(v)) && v.kind_of()
                == ValueKind::True),
            !old(self).starts() ==> (r matches Ok(ActionResult::Finished(data)) && data@
                == Map::<VarId, crate::statedata::ValidVal>::empty()),
    {
        if self.return_start_with {
            Ok(ActionResult::StartWith(TrueValue::new().boxed()))
        } else {
            Ok(ActionResult::Finished(StateData::new()))
        }
    }
}

/// Action that wraps a closure.
pub struct CallbackAction<F> where
    F: Fn(&Step, Option<&str>, &StateDataFiltered, &ObjectStoreFiltered<Var, VarId>) -> Result<
        ActionResult,
        ActionError,
    >,
 {
    id: ActionId,
    cb: F,
}

impl<F> CallbackAction<F> where
    F: Fn(&Step, Option<&str>, &StateDataFiltered, &ObjectStoreFiltered<Var, VarId>) -> Result<
        ActionResult,
        ActionError,
    >,
 {
    #[verifier::type_invariant]
    spec fn inv(self) -> bool {
        callable(self.cb)
    }

    /// The closure that the action calls.
    pub closed spec fn callback(&self) -> F {
        self.cb
    }

    /// Wraps `cb`, which must accept whatever an action may be started
    /// with.
    pub fn new(id: ActionId, cb: F) -> (action: Self)
        requires
            callable(cb),
        ensures
            action.action_id() == id,
            action.callback() == cb,
    {
        CallbackAction { id, cb }
    }
}

/// The closure may be called with every step, name, data and view of the
/// declarations that an action may be started with.
pub open spec fn callable<F>(cb: F) -> bool where
    F: Fn(&Step, Option<&str>, &StateDataFiltered, &ObjectStoreFiltered<Var, VarId>) -> Result<
        ActionResult,
        ActionError,
    >,
 {
    forall|
        f: F,
        step: &Step,
        step_name: Option<&str>,
        step_data: &StateDataFiltered,
        vars: &ObjectStoreFiltered<Var, VarId>,
    |
        call_requires(f, (step, step_name, step_data, vars))
}

impl<F> Action for CallbackAction<F> where
    F: Fn(&Step, Option<&str>, &StateDataFiltered, &ObjectStoreFiltered<Var, VarId>) -> Result<
        ActionResult,
        ActionError,
    >,
 {
    closed spec fn action_id(&self) -> ActionId {
        self.id
    }

    fn id(&self) -> (id: &ActionId) {
        &self.id
    }

    fn start(
        &mut self,
        step: &Step,
        step_name: Option<&str>,
        step_data: &StateDataFiltered,
        vars: &ObjectStoreFiltered<Var, VarId>,
    ) -> (r: Result<ActionResult, ActionError>)
        ensures
            *final(self) == *old(self),
            call_ensures(old(self).callback(), (step, step_name, step_data, vars), r),
    {
        proof {
            use_type_invariant(&*self);
        }
        (self.cb)(step, step_name, step_data, vars)
    }
}

/// What the template actions put in place of `{{step}}` and behind the
/// base URI: the step's name if it has one, else its identity in decimal.
pub open spec fn step_label(step: &Step, step_name: Option<&str>) -> Seq<char> {
    match step_name {
        Some(name) => name@,
        None => decimal_text(step.step_id().0),
    }
}

/// Action that fills the step's name, or else its identity, into a
/// template wherever `{{step}}` stands.
#[derive(Debug)]
pub struct StringTemplateAction<T> {
    id: ActionId,
    template_escaped: T,
}

impl<T> StringTemplateAction<T> where T: EscapedString {
    /// The escaped template.
    pub closed spec fn template(&self) -> Seq<char> {
        self.template_escaped.text()
    }

    /// Create a new instance.
    ///
    /// `template_escaped` must already be escaped. Parameters accepted within is `{{step}}`.
    /// If the step has a name, that will be populated. If not, it will be the step's identity.
    pub fn new(id: ActionId, template_escaped: T) -> (action: Self)
        ensures
            action.action_id() == id,
            action.template() == template_escaped.text(),
    {
        StringTemplateAction { id, template_escaped }
    }

    /// The text that starting the action for a step gives.
    pub open spec fn text_for(&self, step: &Step, step_name: Option<&str>) -> Seq<char> {
        replaced(self.template(), placeholder("step"@), T::escape(step_label(step, step_name)))
    }
}

impl<T> Action for StringTemplateAction<T> where T: EscapedString {
    closed spec fn action_id(&self) -> ActionId {
        self.id
    }

    fn id(&self) -> (id: &ActionId) {
        &self.id
    }

    fn start(
        &mut self,
        step: &Step,
        step_name: Option<&str>,
        _step_data: &StateDataFiltered,
        _vars: &ObjectStoreFiltered<Var, VarId>,
    ) -> (r: Result<ActionResult, ActionError>)
        ensures
            final(self).action_id() == old(self).action_id(),
            final(self).template() == old(self).template(),
            match r {
                Ok(result) => result matches ActionResult::StartWith(v) && v.kind_of()
                    == ValueKind::String && v.text() == old(self).text_for(step, step_name)
                    && v.text().len() > 0,
                Err(e) => e == ActionError::Other
                    && old(self).text_for(step, step_name).len() == 0,
            },
    {
        let escaped_step = match step_name {
            Some(name) => T::from_unescaped(name),
            None => T::from_unescaped(step.id().to_string().as_str()),
        };
        let mut params: Vec<(&str, &str)> = Vec::new();
        params.push(("step", escaped_step.as_str()));
        proof {
            assert(params@.drop_last() =~= Seq::<(&str, &str)>::empty());
            assert(rendered(self.template(), params@) == replaced(
                crate::string_template::filled(self.template(), params@.drop_last()),
                placeholder(params@.last().0@),
                params@.last().1@,
            ));
        }
        let result_str = render_template(self.template_escaped.as_str(), &params);
        match StringValue::try_new(result_str.as_str()) {
            Ok(string_val) => Ok(ActionResult::StartWith(string_val.boxed())),
            Err(_) => Err(ActionError::Other),
        }
    }
}

/// Configuration for [`HtmlFormAction`]
///
/// The templates can use `{{name}}` as a placeholder for the name of the
/// declaration that a field stands for.
#[derive(Debug)]
pub struct HtmlFormConfig {
    /// HTML template for a string field
    pub stringvar_html_template: String,
    /// HTML template for an e-mail field
    pub emailvar_html_template: String,
    /// HTML template for a yes-or-no field
    pub boolvar_html_template: String,
    /// Optional HTML template inserted before any field
    pub prefix_html_template: Option<String>,
    /// HTML tag that will wrap the prefix and field templates.
    pub wrap_tag: Option<String>,
}

/// A template with `name` filled in wherever `{{name}}` stands.
pub open spec fn named(template: Seq<char>, name_escaped: Seq<char>) -> Seq<char> {
    replaced(template, placeholder("name"@), name_escaped)
}

impl HtmlFormConfig {
    /// The tag to wrap each field in, if one is set and it is not empty.
    pub open spec fn wrap(&self) -> Option<Seq<char>> {
        match self.wrap_tag {
            Some(tag) => if tag@.len() > 0 {
                Some(tag@)
            } else {
                None
            },
            None => None,
        }
    }

    /// The HTML of one field: the opening wrap tag, the prefix and the
    /// field's template with the name filled in, and the closing wrap tag.
    pub open spec fn field_html(&self, template: Seq<char>, name_escaped: Seq<char>) -> Seq<char> {
        (match self.wrap() {
            Some(tag) => seq!['<'] + tag + seq!['>'],
            None => Seq::empty(),
        }) + (match self.prefix_html_template {
            Some(prefix) => named(prefix@, name_escaped),
            None => Seq::empty(),
        }) + named(template, name_escaped) + (match self.wrap() {
            Some(tag) => seq!['<', '/'] + tag + seq!['>'],
            None => Seq::empty(),
        })
    }

    /// The template for a kind of value, for the kinds that a form can ask.
    pub open spec fn template_for(&self, kind: ValueKind) -> Option<Seq<char>> {
        match kind {
            ValueKind::String => Some(self.stringvar_html_template@),
            ValueKind::Email => Some(self.emailvar_html_template@),
            ValueKind::Bool => Some(self.boolvar_html_template@),
            _ => None,
        }
    }

    pub fn format_html_template(tag_template: &str, name_escaped: &str) -> (r: String)
        ensures
            r@ == named(tag_template@, name_escaped@),
    {
        let mut params: Vec<(&str, &str)> = Vec::new();
        params.push(("name", name_escaped));
        proof {
            assert(params@.drop_last() =~= Seq::<(&str, &str)>::empty());
            assert(rendered(tag_template@, params@) == replaced(
                crate::string_template::filled(tag_template@, params@.drop_last()),
                placeholder(params@.last().0@),
                params@.last().1@,
            ));
        }
        render_template(tag_template, &params)
    }

    pub fn valid_wraptag(&self) -> (r: Option<&String>)
        ensures
            match r {
                Some(tag) => self.wrap() == Some(tag@),
                None => self.wrap() is None,
            },
    {
        if let Some(wrap_tag) = &self.wrap_tag {
            if !wrap_tag.as_str().is_empty() {
                return Some(wrap_tag);
            }
        }
        None
    }

    pub fn format_input_template(&self, html_template: &str, name_escaped: &str) -> (r: String)
        ensures
            r@ == self.field_html(html_template@, name_escaped@),
    {
        let mut html = String::new();
        // write the head of the wrap
        if let Some(wrap_tag) = self.valid_wraptag() {
            html.append("<");
            html.append(wrap_tag.as_str());
            html.append(">");
        }
        // write the prefix

        if let Some(prefix_html_template) = &self.prefix_html_template {
            let prefix_html = Self::format_html_template(
                prefix_html_template.as_str(),
                name_escaped,
            );
            html.append(prefix_html.as_str());
        }
        // write the tag

        let input_html = Self::format_html_template(html_template, name_escaped);
        html.append(input_html.as_str());
        // write the tail of the wrap
        if let Some(wrap_tag) = self.valid_wraptag() {
            html.append("</");
            html.append(wrap_tag.as_str());
            html.append(">");
        }
        proof {
            reveal_strlit("<");
            reveal_strlit(">");
            reveal_strlit("</");
            assert("<"@ =~= seq!['<']);
            assert(">"@ =~= seq!['>']);
            assert("</"@ =~= seq!['<', '/']);
            assert(html@ =~= self.field_html(html_template@, name_escaped@));
        }
        html
    }
}

impl Default for HtmlFormConfig {
    fn default() -> (config: Self)
        ensures
            config.stringvar_html_template@ == "<input name='{{name}}' type='text' />"@,
            config.emailvar_html_template@ == "<input name='{{name}}' type='email' />"@,
            config.boolvar_html_template@ == "<input name='{{name}}' type='checkbox' />"@,
            config.prefix_html_template is None,
            config.wrap_tag is None,
    {
        HtmlFormConfig {
            stringvar_html_template: owned("<input name='{{name}}' type='text' />"),
            emailvar_html_template: owned("<input name='{{name}}' type='email' />"),
            boolvar_html_template: owned("<input name='{{name}}' type='checkbox' />"),
            prefix_html_template: None,
            wrap_tag: None,
        }
    }
}

/// What a form holds for one output of a step: the field's HTML, or why
/// there is none. The declaration must be visible, have a name, and want a
/// string, an e-mail address or a yes-or-no.
pub open spec fn field_outcome(
    config: &HtmlFormConfig,
    id: VarId,
    vars: &ObjectStoreFiltered<Var, VarId>,
) -> Result<Seq<char>, ActionError> {
    if !vars.allows(id) || !vars.store().id_has_name(id) {
        Err(ActionError::VarId(IdError::IdHasNoName(id)))
    } else if !vars.store().contains(id) {
        Err(ActionError::VarId(IdError::IdMissing(id)))
    } else {
        match config.template_for(vars.store().object(id).kind_of()) {
            None => Err(ActionError::VarId(IdError::IdUnexpected(id))),
            Some(template) => Ok(
                config.field_html(template, html_attribute_encoded(vars.store().name_of(id))),
            ),
        }
    }
}

/// What a form holds for the outputs of a step: the fields one after the
/// other, or the first reason why a field cannot be made.
pub open spec fn fields_outcome(
    config: &HtmlFormConfig,
    outputs: Seq<VarId>,
    vars: &ObjectStoreFiltered<Var, VarId>,
) -> Result<Seq<char>, ActionError>
    decreases outputs.len(),
{
    if outputs.len() == 0 {
        Ok(Seq::empty())
    } else {
        match fields_outcome(config, outputs.drop_last(), vars) {
            Err(e) => Err(e),
            Ok(html) => match field_outcome(config, outputs.last(), vars) {
                Err(e) => Err(e),
                Ok(field) => Ok(html + field),
            },
        }
    }
}

/// An error in the fields of a prefix of the outputs is the error of all.
pub proof fn lemma_fields_outcome_prefix(
    config: &HtmlFormConfig,
    outputs: Seq<VarId>,
    vars: &ObjectStoreFiltered<Var, VarId>,
    n: int,
)
    requires
        0 <= n <= outputs.len(),
        fields_outcome(config, outputs.subrange(0, n), vars) is Err,
    ensures
        fields_outcome(config, outputs, vars)
            == fields_outcome(config, outputs.subrange(0, n), vars),
    decreases outputs.len() - n,
{
    if n < outputs.len() {
        assert(outputs.subrange(0, n + 1).drop_last() =~= outputs.subrange(0, n));
        lemma_fields_outcome_prefix(config, outputs, vars, n + 1);
    } else {
        assert(outputs.subrange(0, n) =~= outputs);
    }
}

/// Action to generate an HTML form for a [`Step`]
///
/// The action walks the outputs of the step and makes the HTML of a field
/// for each, as the [`HtmlFormConfig`] says. The HTML is returned as a
/// string in the [`ActionResult::StartWith`] result
#[derive(Debug)]
pub struct HtmlFormAction {
    id: ActionId,
    html_config: HtmlFormConfig,
}

impl HtmlFormAction {
    /// The configuration of the form.
    pub closed spec fn config(&self) -> HtmlFormConfig {
        self.html_config
    }

    /// Create a new HtmlFormAction
    pub fn new(id: ActionId, html_config: HtmlFormConfig) -> (action: Self)
        ensures
            action.action_id() == id,
            action.config() == html_config,
    {
        HtmlFormAction { id, html_config }
    }

    /// The action as a trait object, as a registry of actions holds it: it
    /// is this action, under the same identity.
    pub fn boxed(self) -> (boxed: Box<dyn Action>)
        ensures
            boxed.action_id() == self.action_id(),
    {
        return Box::new(self);
    }
}

impl Action for HtmlFormAction {
    closed spec fn action_id(&self) -> ActionId {
        self.id
    }

    fn id(&self) -> (id: &ActionId) {
        &self.id
    }

    fn start(
        &mut self,
        step: &Step,
        _step_name: Option<&str>,
        _step_data: &StateDataFiltered,
        vars: &ObjectStoreFiltered<Var, VarId>,
    ) -> (r: Result<ActionResult, ActionError>)
        ensures
            *final(self) == *old(self),
            match fields_outcome(&old(self).config(), step.outputs(), vars) {
                Err(e) => r == Err::<ActionResult, ActionError>(e),
                Ok(html) => if html.len() == 0 {
                    r == Err::<ActionResult, ActionError>(ActionError::Other)
                } else {
                    r matches Ok(ActionResult::StartWith(v)) && v.kind_of() == ValueKind::String
                        && v.text() == html
                },
            },
    {
        let outputs = step.get_output_vars();
        let mut html = String::new();
        let mut i: usize = 0;
        while i < outputs.len()
            invariant
                outputs@ == step.outputs(),
                i <= outputs@.len(),
                fields_outcome(&self.html_config, outputs@.subrange(0, i as int), vars) == Ok::<
                    Seq<char>,
                    ActionError,
                >(html@),
            decreases outputs@.len() - i,
        {
            let var_id = &outputs[i];
            proof {
                assert(outputs@.subrange(0, i + 1).drop_last() =~= outputs@.subrange(0, i as int));
                assert(outputs@.subrange(0, i + 1).last() == *var_id);
            }
            let name = match vars.name_from_id(var_id) {
                Some(name) => name,
                None => {
                    proof {
                        lemma_fields_outcome_prefix(&self.html_config, outputs@, vars, i + 1);
                    }
                    return Err(ActionError::VarId(IdError::IdHasNoName(*var_id)));
                },
            };
            let name_escaped = html_encode_attribute(name);
            let var = match vars.get(var_id) {
                Some(var) => var,
                None => {
                    proof {
                        lemma_fields_outcome_prefix(&self.html_config, outputs@, vars, i + 1);
                    }
                    return Err(ActionError::VarId(IdError::IdMissing(*var_id)));
                },
            };
            let html_template = match var.kind() {
                ValueKind::String => &self.html_config.stringvar_html_template,
                ValueKind::Email => &self.html_config.emailvar_html_template,
                ValueKind::Bool => &self.html_config.boolvar_html_template,
                _ => {
                    proof {
                        lemma_fields_outcome_prefix(&self.html_config, outputs@, vars, i + 1);
                    }
                    return Err(ActionError::VarId(IdError::IdUnexpected(*var_id)));
                },
            };
            let input_html = self.html_config.format_input_template(
                html_template.as_str(),
                name_escaped.as_str(),
            );
            html.append(input_html.as_str());
            i = i + 1;
        }
        proof {
            assert(outputs@.subrange(0, i as int) =~= outputs@);
        }
        match StringValue::try_new(html.as_str()) {
            Ok(stringval) => Ok(ActionResult::StartWith(stringval.boxed())),
            Err(_) => Err(ActionError::Other),
        }
    }
}

/// What the URI actions answer for a step: the base URI with the step's
/// label behind it, as a URI value; `None` where no URI comes of it.
pub open spec fn uri_for(base: Seq<char>, step: &Step, step_name: Option<&str>) -> Option<Seq<char>> {
    let label = match step_name {
        Some(name) => percent_encoded(name@),
        None => decimal_text(step.step_id().0),
    };
    match joined_uri(base, seq!['/'] + label) {
        Some(text) => if crate::uri::uri_accepted(text) {
            Some(text)
        } else {
            None
        },
        None => None,
    }
}

/// Starts a URI action: see [`uri_for`].
fn start_uri(base: &UriValue, step: &Step, step_name: Option<&str>) -> (r: Result<
    ActionResult,
    ActionError,
>)
    ensures
        match uri_for(base@, step, step_name) {
            Some(text) => r matches Ok(ActionResult::StartWith(v)) && v.kind_of() == ValueKind::Uri
                && v.text() == text,
            None => r == Err::<ActionResult, ActionError>(ActionError::Other),
        },
{
    let path_str = match step_name {
        Some(name) => percent_encode(name),
        None => step.id().to_string(),
    };
    let mut path = owned("/");
    path.append(path_str.as_str());
    proof {
        reveal_strlit("/");
        assert(path@ =~= seq!['/'] + path_str@);
    }
    let result_uri = match uri_join_relative(base, path.as_str()) {
        Some(text) => text,
        None => {
            return Err(ActionError::Other);
        },
    };
    match UriValue::try_new(result_uri.as_str()) {
        Ok(urival) => Ok(ActionResult::StartWith(urival.boxed())),
        Err(_) => Err(ActionError::Other),
    }
}

/// Action that returns a URI with either the name of the [`Step`] or its
/// identity if the name is not set.
#[derive(Debug)]
pub struct UriAction {
    id: ActionId,
    base_uri: UriValue,
}

impl UriAction {
    /// The URI that the step's label is put behind.
    pub closed spec fn base(&self) -> Seq<char> {
        self.base_uri@
    }

    /// Create a new instance.
    ///
    /// The step's name or identity is appended to the `base_uri`
    pub fn new(id: ActionId, base_uri: UriValue) -> (action: Self)
        ensures
            action.action_id() == id,
            action.base() == base_uri@,
    {
        UriAction { id, base_uri }
    }

    /// The action as a trait object, as a registry of actions holds it: it
    /// is this action, under the same identity.
    pub fn boxed(self) -> (boxed: Box<dyn Action>)
        ensures
            boxed.action_id() == self.action_id(),
    {
        return Box::new(self);
    }
}

impl Action for UriAction {
    closed spec fn action_id(&self) -> ActionId {
        self.id
    }

    fn id(&self) -> (id: &ActionId) {
        &self.id
    }

    fn start(
        &mut self,
        step: &Step,
        step_name: Option<&str>,
        _step_data: &StateDataFiltered,
        _vars: &ObjectStoreFiltered<Var, VarId>,
    ) -> (r: Result<ActionResult, ActionError>)
        ensures
            *final(self) == *old(self),
            match uri_for(old(self).base(), step, step_name) {
                Some(text) => r matches Ok(ActionResult::StartWith(v)) && v.kind_of()
                    == ValueKind::Uri && v.text() == text,
                None => r == Err::<ActionResult, ActionError>(ActionError::Other),
            },
    {
        start_uri(&self.base_uri, step, step_name)
    }
}

/// Action that returns a URL with either the name of the [`Step`] or its
/// identity if the name is not set.
#[derive(Debug)]
pub struct UrlStepAction {
    id: ActionId,
    base_url: UriValue,
}

impl UrlStepAction {
    /// The URL that the step's label is put behind.
    pub closed spec fn base(&self) -> Seq<char> {
        self.base_url@
    }

    pub fn new(id: ActionId, base_url: UriValue) -> (action: Self)
        ensures
            action.action_id() == id,
            action.base() == base_url@,
    {
        UrlStepAction { id, base_url }
    }

    /// The action as a trait object, as a registry of actions holds it: it
    /// is this action, under the same identity.
    pub fn boxed(self) -> (boxed: Box<dyn Action>)
        ensures
            boxed.action_id() == self.action_id(),
    {
        return Box::new(self);
    }
}

impl Action for UrlStepAction {
    closed spec fn action_id(&self) -> ActionId {
        self.id
    }

    fn id(&self) -> (id: &ActionId) {
        &self.id
    }

    fn start(
        &mut self,
        step: &Step,
        step_name: Option<&str>,
        _step_data: &StateDataFiltered,
        _vars: &ObjectStoreFiltered<Var, VarId>,
    ) -> (r: Result<ActionResult, ActionError>)
        ensures
            *final(self) == *old(self),
            match uri_for(old(self).base(), step, step_name) {
                Some(text) => r matches Ok(ActionResult::StartWith(v)) && v.kind_of()
                    == ValueKind::Uri && v.text() == text,
                None => r == Err::<ActionResult, ActionError>(ActionError::Other),
            },
    {
        start_uri(&self.base_url, step, step_name)
    }
}

} // verus!
