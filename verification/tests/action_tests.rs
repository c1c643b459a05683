use std::cell::Cell;
use std::collections::HashSet;
use stepflow::action::{
    Action, ActionResult, CallbackAction, HtmlFormAction, HtmlFormConfig, SetDataAction,
    StringTemplateAction, TestAction, UriAction, UrlStepAction,
};
use stepflow::errors::{ActionError, Error, IdError};
use stepflow::id::{ActionId, StepId, VarId};
use stepflow::object_store::ObjectStore;
use stepflow::object_store_filtered::ObjectStoreFiltered;
use stepflow::statedata::StateData;
use stepflow::statedata_filtered::StateDataFiltered;
use stepflow::step::Step;
use stepflow::string_template::{render_template, EscapedString, HtmlEscapedString, UriEscapedString};
use stepflow::uri::{join_path, uri_join_relative};
use stepflow::value::{StringValue, TrueValue, UriValue, Value};
use stepflow::var::{EmailVar, StringVar, TrueVar, Var};

fn test_action_setup() -> (Step, StateData, ObjectStore<Var, VarId>, VarId, Value) {
    // setup var
    let mut var_store: ObjectStore<Var, VarId> = ObjectStore::new();
    let var_id = var_store.insert_new(|id| Ok(StringVar::new(id).boxed())).unwrap();
    let var = var_store.get(&var_id).unwrap();

    // set a value in statedata
    let state_val = StringValue::try_new("hi").unwrap().boxed();
    let mut state_data = StateData::new();
    state_data.insert(var, state_val.clone()).unwrap();

    let step = Step::new(StepId::new(2), None, vec![]);
    (step, state_data, var_store, var_id, state_val)
}

#[test]
fn eq() {
    let result_start = ActionResult::StartWith(TrueValue::new().boxed());
    let result_finish = ActionResult::Finished(StateData::new());
    let result_cannot = ActionResult::CannotFulfill;

    assert_eq!(result_start, result_start);
    assert_ne!(result_start, result_finish);
    assert_ne!(result_start, result_cannot);

    assert_eq!(result_finish, result_finish);
    assert_ne!(result_finish, result_cannot);
}

#[test]
fn basic_callback() {
    let count = Cell::new(0);

    {
        let mut exec = CallbackAction::new(ActionId::new(0xff00), |_, _, _, _| {
            count.set(count.get() + 1);
            Ok(ActionResult::CannotFulfill)
        });

        let (step, state_data, var_store, _var_id, _val) = test_action_setup();
        let vars = ObjectStoreFiltered::new(&var_store, HashSet::new());
        let step_data_filtered = StateDataFiltered::new(&state_data, HashSet::new());

        let start_action1 = exec.start(&step, None, &step_data_filtered, &vars);
        assert_eq!(start_action1, Ok(ActionResult::CannotFulfill));

        let start_action2 = exec.start(&step, None, &step_data_filtered, &vars);
        assert_eq!(start_action2, Ok(ActionResult::CannotFulfill));

        let start_action3 = exec.start(&step, None, &step_data_filtered, &vars);
        assert_eq!(start_action3, Ok(ActionResult::CannotFulfill));
        assert_eq!(*exec.id(), ActionId::new(0xff00));
    }
    assert_eq!(count.get(), 3);
}

#[test]
fn html_format_input() {
    let mut html_config: HtmlFormConfig = Default::default();
    html_config.stringvar_html_template = "s({{name}},{{name}})".to_owned();
    html_config.emailvar_html_template = "e({{name}},{{name}})".to_owned();

    // simple case
    let escaped_n = HtmlEscapedString::from_unescaped("n");
    let formatted = html_config.format_input_template(&html_config.stringvar_html_template, escaped_n.as_str());
    assert_eq!(formatted, "s(n,n)");

    // add prefix
    html_config.prefix_html_template = Some("p({{name}})".to_owned());
    let formatted_prefix =
        html_config.format_input_template(&html_config.stringvar_html_template, escaped_n.as_str());
    assert_eq!(formatted_prefix, "p(n)s(n,n)");

    // add wrap
    html_config.wrap_tag = Some("div".to_owned());
    let wrapped_prefix =
        html_config.format_input_template(&html_config.stringvar_html_template, escaped_n.as_str());
    assert_eq!(wrapped_prefix, "<div>p(n)s(n,n)</div>");

    // empty wrap
    html_config.wrap_tag = Some(String::new());
    let wrapped_empty =
        html_config.format_input_template(&html_config.stringvar_html_template, escaped_n.as_str());
    assert_eq!(wrapped_empty, "p(n)s(n,n)");
    assert_eq!(html_config.valid_wraptag(), None);
    assert_eq!(HtmlFormConfig::format_html_template("a{{name}}b", "n"), "anb");
}

#[test]
fn simple_form() {
    let var1 = StringVar::new(VarId::new(0xff00));
    let var2 = EmailVar::new(VarId::new(0xff01));
    let var_ids = vec![var1.id().clone(), var2.id().clone()];
    let step = Step::new(StepId::new(4), None, var_ids.clone());

    let state_data = StateData::new();
    let var_filter = var_ids.iter().map(|id| id.val()).collect::<HashSet<_>>();
    let step_data_filtered = StateDataFiltered::new(&state_data, var_filter.clone());

    let mut var_store: ObjectStore<Var, VarId> = ObjectStore::new();
    var_store.register_named("var 1", var1.boxed()).unwrap();
    var_store.register_named("var 2", var2.boxed()).unwrap();

    let var_store_filtered = ObjectStoreFiltered::new(&var_store, var_filter);

    let mut exec = HtmlFormAction::new(ActionId::new(0xff00), Default::default());
    let action_result = exec.start(&step, None, &step_data_filtered, &var_store_filtered).unwrap();
    if let ActionResult::StartWith(html) = action_result {
        let html = html.downcast::<StringValue>().unwrap().val();
        assert_eq!(html, "<input name='var&#x20;1' type='text' /><input name='var&#x20;2' type='email' />");
    } else {
        panic!("Did not get startwith value");
    }

    // customize the tags
    let mut html_config: HtmlFormConfig = Default::default();
    html_config.prefix_html_template = Some("p({{name}})".to_owned());
    html_config.stringvar_html_template = "l({{name}})s({{name}})".to_owned();
    html_config.emailvar_html_template = "l({{name}})e({{name}})".to_owned();
    let mut custom_exec = HtmlFormAction::new(ActionId::new(0xff01), html_config);
    let custom_result = custom_exec.start(&step, None, &step_data_filtered, &var_store_filtered).unwrap();
    if let ActionResult::StartWith(html) = custom_result {
        let html = html.downcast::<StringValue>().unwrap().val();
        assert_eq!(html, "p(var&#x20;1)l(var&#x20;1)s(var&#x20;1)p(var&#x20;2)l(var&#x20;2)e(var&#x20;2)");
    } else {
        panic!("Did not get startwith value");
    }
}

#[test]
fn form_errors() {
    let named = VarId::new(1);
    let unnamed = VarId::new(2);
    let flag = VarId::new(3);
    let hidden = VarId::new(4);
    let mut var_store: ObjectStore<Var, VarId> = ObjectStore::new();
    var_store.register_named("named", StringVar::new(named).boxed()).unwrap();
    var_store.register(StringVar::new(unnamed).boxed()).unwrap();
    var_store.register_named("flag", TrueVar::new(flag).boxed()).unwrap();
    var_store.register_named("hidden", StringVar::new(hidden).boxed()).unwrap();
    let filter = vec![1u32, 2, 3].into_iter().collect::<HashSet<_>>();
    let vars = ObjectStoreFiltered::new(&var_store, filter.clone());
    let state_data = StateData::new();
    let data = StateDataFiltered::new(&state_data, filter);
    let mut exec = HtmlFormAction::new(ActionId::new(1), Default::default());

    let step = Step::new(StepId::new(4), None, vec![named, unnamed]);
    assert_eq!(exec.start(&step, None, &data, &vars), Err(ActionError::VarId(IdError::IdHasNoName(unnamed))));
    let step = Step::new(StepId::new(4), None, vec![named, flag]);
    assert_eq!(exec.start(&step, None, &data, &vars), Err(ActionError::VarId(IdError::IdUnexpected(flag))));
    let step = Step::new(StepId::new(4), None, vec![hidden]);
    assert_eq!(exec.start(&step, None, &data, &vars), Err(ActionError::VarId(IdError::IdHasNoName(hidden))));
    // a form without fields is no string value
    let step = Step::new(StepId::new(4), None, vec![]);
    assert_eq!(exec.start(&step, None, &data, &vars), Err(ActionError::Other));
    assert_eq!(Error::from(ActionError::Other), Error::Other);
    assert_eq!(
        Error::from(stepflow::errors::InvalidValue::Empty),
        Error::InvalidValue(stepflow::errors::InvalidValue::Empty)
    );
    assert_eq!(
        Error::from(ActionError::StepId(IdError::IdMissing(StepId::new(3)))),
        Error::StepId(IdError::IdMissing(StepId::new(3)))
    );
    assert_eq!(
        Error::from(ActionError::VarId(IdError::IdMissing(named))),
        Error::VarId(IdError::IdMissing(named))
    );
}

#[test]
fn on_attempts() {
    let (step, state_data, var_store, var_id, val) = test_action_setup();
    let mut allowed_ids = HashSet::new();
    allowed_ids.insert(var_id.val());
    let vars = ObjectStoreFiltered::new(&var_store, allowed_ids);
    let step_data_filtered = StateDataFiltered::new(&state_data, HashSet::new());

    let mut expected_output = StateData::new();
    let var = vars.get(&var_id).unwrap();
    expected_output.insert(var, val.clone()).unwrap();

    let mut action_now = SetDataAction::new(ActionId::new(0xff00), state_data.clone(), 0);
    assert!(matches!(
      action_now.start(&step, None, &step_data_filtered, &vars),
      Ok(ActionResult::Finished(output)) if output == expected_output));

    let mut action_after_3 = SetDataAction::new(ActionId::new(0xff01), state_data.clone(), 3);
    for _ in 0..3 {
        assert_eq!(
            action_after_3.start(&step, None, &step_data_filtered, &vars),
            Ok(ActionResult::CannotFulfill)
        );
    }
    assert!(matches!(
      action_after_3.start(&step, None, &step_data_filtered, &vars),
      Ok(ActionResult::Finished(output)) if output == expected_output));
}

#[test]
fn test_action_answers() {
    let (step, state_data, var_store, _var_id, _val) = test_action_setup();
    let vars = ObjectStoreFiltered::new(&var_store, HashSet::new());
    let data = StateDataFiltered::new(&state_data, HashSet::new());
    let mut starts = TestAction::new_with_id(ActionId::new(1), true);
    assert_eq!(starts.start(&step, None, &data, &vars), Ok(ActionResult::StartWith(TrueValue::new().boxed())));
    let mut finishes = TestAction::new_with_id(ActionId::new(2), false);
    assert_eq!(finishes.start(&step, None, &data, &vars), Ok(ActionResult::Finished(StateData::new())));
    assert_eq!(*finishes.boxed().id(), ActionId::new(2));
}

#[test]
fn boxed_actions_keep_their_identity() {
    let (step, state_data, var_store, _var_id, _val) = test_action_setup();
    let vars = ObjectStoreFiltered::new(&var_store, HashSet::new());
    let data = StateDataFiltered::new(&state_data, HashSet::new());
    let set = SetDataAction::new(ActionId::new(11), StateData::new(), 0).boxed();
    assert_eq!(*set.id(), ActionId::new(11));
    let form = HtmlFormAction::new(ActionId::new(12), Default::default()).boxed();
    assert_eq!(*form.id(), ActionId::new(12));
    let uri = UriAction::new(ActionId::new(13), "/a".parse().unwrap()).boxed();
    assert_eq!(*uri.id(), ActionId::new(13));
    let mut url = UrlStepAction::new(ActionId::new(14), "/a".parse().unwrap()).boxed();
    assert_eq!(*url.id(), ActionId::new(14));
    // and they answer as the action that was boxed
    let answer = url.start(&step, Some("b"), &data, &vars);
    assert_eq!(answer, Ok(ActionResult::StartWith(UriValue::try_new("/a/b").unwrap().boxed())));
    let mut starts = TestAction::new_with_id(ActionId::new(15), true).boxed();
    assert_eq!(*starts.id(), ActionId::new(15));
    assert_eq!(
        starts.start(&step, None, &data, &vars),
        Ok(ActionResult::StartWith(TrueValue::new().boxed()))
    );
    // a registry takes the boxed action under the identity that it reserved
    let mut store: ObjectStore<Box<dyn Action>, ActionId> = ObjectStore::new();
    let id = store.insert_new(|id| Ok(SetDataAction::new(id, StateData::new(), 0).boxed())).unwrap();
    assert_eq!(*store.get(&id).unwrap().id(), id);
}

#[test]
fn action_string_template_basic() {
    let (step, state_data, var_store, _var_id, _val) = test_action_setup();
    let vars = ObjectStoreFiltered::new(&var_store, HashSet::new());
    let step_data_filtered = StateDataFiltered::new(&state_data, HashSet::new());

    let mut exec = StringTemplateAction::new(
        ActionId::new(0xff00),
        UriEscapedString::already_escaped("/test/{{step}}/uri#{{step}}".to_owned()),
    );
    let action_result = exec.start(&step, None, &step_data_filtered, &vars).unwrap();
    let uri = format!("/test/{}/uri#{}", step.id.to_string(), step.id.to_string());
    let expected_val = StringValue::try_new(&uri).unwrap();
    let expected_result = ActionResult::StartWith(expected_val.boxed());
    assert_eq!(action_result, expected_result);
    assert_eq!(uri, "/test/2/uri#2");
}

#[test]
fn action_string_template_encode_name() {
    let (step, state_data, var_store, _var_id, _val) = test_action_setup();
    let vars = ObjectStoreFiltered::new(&var_store, HashSet::new());
    let step_data_filtered = StateDataFiltered::new(&state_data, HashSet::new());

    let mut exec = StringTemplateAction::new(
        ActionId::new(0xff00),
        UriEscapedString::already_escaped("/test/uri/{{step}}".to_owned()),
    );
    let action_result = exec.start(&step, Some("/hi there?/"), &step_data_filtered, &vars).unwrap();
    let expected_val = StringValue::try_new("/test/uri/%2Fhi%20there%3F%2F").unwrap();
    let expected_result = ActionResult::StartWith(expected_val.boxed());
    println!("ACTION: {:?}", action_result);
    assert_eq!(action_result, expected_result);
}

#[test]
fn action_uri_uri_join() {
    let base_uri = UriValue::try_new("/hi").unwrap();
    let base_uri_slash = UriValue::try_new("/hi/").unwrap();

    assert_eq!(uri_join_relative(&base_uri, "bye").unwrap(), "/hi/bye");
    assert_eq!(uri_join_relative(&base_uri_slash, "bye").unwrap(), "/hi/bye");
    assert_eq!(uri_join_relative(&base_uri, "/bye").unwrap(), "/hi/bye");
    assert_eq!(uri_join_relative(&base_uri_slash, "/bye").unwrap(), "/hi/bye");
}

#[test]
fn action_uri_join() {
    let (step, state_data, var_store, _var_id, _val) = test_action_setup();
    let vars = ObjectStoreFiltered::new(&var_store, HashSet::new());
    let step_data_filtered = StateDataFiltered::new(&state_data, HashSet::new());

    let mut exec = UriAction::new(ActionId::new(0xff00), "/test/uri".parse().unwrap());
    let action_result = exec.start(&step, None, &step_data_filtered, &vars).unwrap();
    let uri = format!("/test/uri/{}", step.id.to_string());
    let expected_val = UriValue::try_new(&uri).unwrap();
    let expected_result = ActionResult::StartWith(expected_val.boxed());
    assert_eq!(action_result, expected_result);
}

#[test]
fn action_uri_encode_name() {
    let (step, state_data, var_store, _var_id, _val) = test_action_setup();
    let vars = ObjectStoreFiltered::new(&var_store, HashSet::new());
    let step_data_filtered = StateDataFiltered::new(&state_data, HashSet::new());

    let mut exec = UriAction::new(ActionId::new(0xff00), "/test/uri".parse().unwrap());
    let action_result = exec.start(&step, Some("/hi there?/"), &step_data_filtered, &vars).unwrap();
    let expected_val = UriValue::try_new("/test/uri/%2Fhi%20there%3F%2F").unwrap();
    let expected_result = ActionResult::StartWith(expected_val.boxed());
    assert_eq!(action_result, expected_result);
}

#[test]
fn action_url_uri_join() {
    let base_uri = "/hi".parse::<UriValue>().unwrap();
    let base_uri_slash = "/hi/".parse::<UriValue>().unwrap();

    assert_eq!(uri_join_relative(&base_uri, "bye").unwrap(), "/hi/bye");
    assert_eq!(uri_join_relative(&base_uri_slash, "bye").unwrap(), "/hi/bye");
    assert_eq!(uri_join_relative(&base_uri, "/bye").unwrap(), "/hi/bye");
    assert_eq!(uri_join_relative(&base_uri_slash, "/bye").unwrap(), "/hi/bye");
}

#[test]
fn action_url_join() {
    let (step, state_data, varstore, _var_id, _val) = test_action_setup();
    let vars = ObjectStoreFiltered::new(&varstore, HashSet::new());
    let step_data_filtered = StateDataFiltered::new(&state_data, HashSet::new());

    let mut exec = UrlStepAction::new(ActionId::new(0xff00), "/test/url".parse().unwrap());
    let action_result = exec.start(&step, None, &step_data_filtered, &vars).unwrap();
    let uri = format!("/test/url/{}", step.id.to_string());
    let expected_val = UriValue::try_new(&uri).unwrap();
    let expected_result = ActionResult::StartWith(expected_val.boxed());
    assert_eq!(action_result, expected_result);
}

#[test]
fn action_url_encode_name() {
    let (step, state_data, varstore, _var_id, _val) = test_action_setup();
    let vars = ObjectStoreFiltered::new(&varstore, HashSet::new());
    let step_data_filtered = StateDataFiltered::new(&state_data, HashSet::new());

    let mut exec = UrlStepAction::new(ActionId::new(0xff00), "/test/url".parse().unwrap());
    let action_result = exec.start(&step, Some("/hi there?/"), &step_data_filtered, &vars).unwrap();
    let expected_val = UriValue::try_new("/test/url/%2Fhi%20there%3F%2F").unwrap();
    let expected_result = ActionResult::StartWith(expected_val.boxed());
    assert_eq!(action_result, expected_result);
}

#[test]
fn uri_joins() {
    assert_eq!(join_path("/a", "b"), "/a/b");
    assert_eq!(join_path("/a/", "/b"), "/a/b");
    assert_eq!(join_path("/a/", "b"), "/a/b");
    assert_eq!(join_path("/a", "/b"), "/a/b");
    assert_eq!(join_path("", ""), "/");
    assert_eq!(join_path("/", "/"), "/");
    // the query of the base is dropped, and scheme and authority stay
    let base = UriValue::try_new("http://example.com/a?x=1").unwrap();
    assert_eq!(uri_join_relative(&base, "b?y=2").unwrap(), "http://example.com/a/b?y=2");
    // a suffix that is no path and query gives no URI
    assert_eq!(uri_join_relative(&base, "b c"), None);
}

#[test]
fn handlebars_basic() {
    let params = vec![("name", "bob"), ("value", "myvalue")];
    let output = render_template("name{{name}}, value{{value}}", &params);
    assert_eq!(output, "namebob, valuemyvalue");
}

#[test]
fn templates_and_escapes() {
    // parameters are filled in one after the other
    let params = vec![("a", "{{b}}"), ("b", "x")];
    assert_eq!(render_template("{{a}}{{b}}", &params), "xx");
    // without a parameter nothing is rendered
    assert_eq!(render_template("name{{name}}", &vec![]), "");
    assert_eq!(HtmlEscapedString::from_unescaped("a b").as_str(), "a&#x20;b");
    assert_eq!(HtmlEscapedString::from_unescaped("a b").len(), 8);
    assert_eq!(HtmlEscapedString::already_escaped("a b".to_owned()).as_ref(), "a b");
    assert_eq!(UriEscapedString::from_unescaped("/hi there?/").as_str(), "%2Fhi%20there%3F%2F");
    assert_eq!(UriEscapedString::already_escaped("a b".to_owned()).as_ref(), "a b");
}
