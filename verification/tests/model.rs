use small_tools::model::{Menu, Model, ModelList};

fn model(name: &str, default: bool) -> Model {
    Model {
        api_key: format!("key-{}", name),
        model_name: name.to_string(),
        url: format!("https://{}.example", name),
        default,
    }
}

fn list(models: Vec<Model>) -> ModelList {
    ModelList { models }
}

#[test]
fn a_new_catalog_is_empty() {
    assert!(ModelList::new().models.is_empty());
    assert_eq!(ModelList::new().get_model(0), None);
    assert_eq!(ModelList::new().get_default_model(), None);
}

#[test]
fn the_default_model_is_empty() {
    assert_eq!(
        Model::default(),
        Model { api_key: String::new(), model_name: String::new(), url: String::new(), default: false }
    );
}

#[test]
fn models_are_added_at_the_end() {
    let mut models = ModelList::new();
    models.add_model(model("a", false));
    models.add_model(model("b", true));
    models.add_model(model("a", false));
    assert_eq!(models.models, vec![model("a", false), model("b", true), model("a", false)]);
}

#[test]
fn a_model_is_edited_in_place() {
    let mut models = list(vec![model("a", false), model("b", true), model("c", false)]);
    assert!(models.edit_model(1, model("x", false)));
    assert_eq!(models.models, vec![model("a", false), model("x", false), model("c", false)]);
    assert!(models.edit_model(2, model("y", true)));
    assert_eq!(models.models, vec![model("a", false), model("x", false), model("y", true)]);
}

#[test]
fn an_edit_out_of_range_changes_nothing() {
    let mut models = list(vec![model("a", false)]);
    assert!(!models.edit_model(1, model("x", false)));
    assert!(!models.edit_model(usize::MAX, model("x", false)));
    assert_eq!(models.models, vec![model("a", false)]);
    assert!(!ModelList::new().edit_model(0, model("x", false)));
}

#[test]
fn a_model_is_deleted_and_the_rest_moves_up() {
    let mut models = list(vec![model("a", false), model("b", true), model("c", false)]);
    assert!(models.delete_model(0));
    assert_eq!(models.models, vec![model("b", true), model("c", false)]);
    assert!(models.delete_model(1));
    assert_eq!(models.models, vec![model("b", true)]);
    assert!(!models.delete_model(1));
    assert_eq!(models.models, vec![model("b", true)]);
    assert!(models.delete_model(0));
    assert!(models.models.is_empty());
    assert!(!models.delete_model(0));
}

#[test]
fn a_model_is_found_by_its_position() {
    let models = list(vec![model("a", false), model("b", true)]);
    assert_eq!(models.get_model(0), Some(&model("a", false)));
    assert_eq!(models.get_model(1), Some(&model("b", true)));
    assert_eq!(models.get_model(2), None);
    assert_eq!(models.get_model(usize::MAX), None);
}

#[test]
fn one_model_is_the_default() {
    let mut models = list(vec![model("a", true), model("b", true), model("c", false)]);
    assert!(models.set_default(2));
    assert_eq!(models.models, vec![model("a", false), model("b", false), model("c", true)]);
    assert!(models.set_default(0));
    assert_eq!(models.models, vec![model("a", true), model("b", false), model("c", false)]);
    assert!(models.set_default(0));
    assert_eq!(models.models, vec![model("a", true), model("b", false), model("c", false)]);
}

#[test]
fn a_default_out_of_range_changes_nothing() {
    let mut models = list(vec![model("a", true), model("b", true)]);
    assert!(!models.set_default(2));
    assert_eq!(models.models, vec![model("a", true), model("b", true)]);
    assert!(!ModelList::new().set_default(0));
}

#[test]
fn the_first_default_model_is_found() {
    assert_eq!(list(vec![model("a", false), model("b", false)]).get_default_model(), None);
    assert_eq!(
        list(vec![model("a", false), model("b", true), model("c", true)]).get_default_model(),
        Some(&model("b", true))
    );
    assert_eq!(list(vec![model("a", true)]).get_default_model(), Some(&model("a", true)));
}

#[test]
fn catalogs_and_models_are_copied() {
    let models = list(vec![model("a", false), model("b", true)]);
    assert_eq!(models.clone(), models);
    assert_eq!(model("a", true).clone(), model("a", true));
    assert_eq!(ModelList::new().clone(), ModelList::new());
}

#[test]
fn a_model_is_made_of_trimmed_input() {
    assert_eq!(
        Model::from_input(" sk-1 \n", "\tgpt\r\n", "https://x y \n", false),
        Model {
            api_key: "sk-1".to_string(),
            model_name: "gpt".to_string(),
            url: "https://x y".to_string(),
            default: false,
        }
    );
    assert!(Model::from_input("", "", "", true).default);
    assert_eq!(Model::from_input("\n", " ", "", false), Model::default());
}

#[test]
fn an_edit_from_input_keeps_the_default_flag() {
    let mut models = list(vec![model("a", false), model("b", true)]);
    assert!(models.edit_from_input(1, " k \n", " n \n", " u \n"));
    assert_eq!(
        models.models[1],
        Model { api_key: "k".to_string(), model_name: "n".to_string(), url: "u".to_string(), default: true }
    );
    assert_eq!(models.models[0], model("a", false));
    assert!(models.edit_from_input(0, "k", "n", "u"));
    assert!(!models.models[0].default);
    assert!(!models.edit_from_input(2, "k", "n", "u"));
    assert_eq!(models.models.len(), 2);
}

#[test]
fn the_default_model_is_known() {
    let models = list(vec![model("a", false), model("b", true)]);
    assert!(!models.is_default(0));
    assert!(models.is_default(1));
    assert!(!models.is_default(2));
}

#[test]
fn model_menu_choices() {
    for (line, choice) in [
        ("1", Menu::Add),
        ("ADD\n", Menu::Add),
        ("2", Menu::Edit),
        (" edit ", Menu::Edit),
        ("3", Menu::Delete),
        ("Delete", Menu::Delete),
        ("4", Menu::Choose),
        ("choose", Menu::Choose),
        ("5", Menu::SetDefault),
        ("DEFAULT", Menu::SetDefault),
        ("6", Menu::Back),
        ("0", Menu::Back),
        ("", Menu::Back),
        ("back", Menu::Back),
        ("set default", Menu::Back),
    ] {
        assert_eq!(Menu::form_handler(&line.to_string()), choice, "line {:?}", line);
    }
    assert_eq!(Menu::from_keyword("default"), Menu::SetDefault);
    assert_eq!(Menu::from_keyword("Default"), Menu::Back);
}
