use lazy_locker::editor::{App, Field, Key, Modal, Mode, TokenUsage};
use lazy_locker::store::SecretsStore;

#[test]
fn test_app_new_defaults() {
    let app = App::new();

    assert!(!app.should_quit);
    assert!(!app.initialized);
    assert_eq!(app.mode, Mode::Normal);
    assert_eq!(app.modal, Modal::Closed);
    assert!(app.passphrase.is_empty());
    assert!(app.error_message.is_none());
    assert!(app.secrets_store.is_none());
    assert_eq!(app.selected_index, 0);
    assert!(app.revealed_secret.is_none());
}

#[test]
fn test_app_quit() {
    let mut app = App::new();
    assert!(!app.should_quit);

    app.quit();

    assert!(app.should_quit);
}

#[test]
fn test_enter_init_mode() {
    let mut app = App::new();
    app.error_message = Some("Previous error".to_string());

    app.enter_init_mode();

    assert_eq!(app.mode, Mode::InitPassphrase);
    assert!(app.error_message.is_none());
}

#[test]
fn test_open_add_modal() {
    let mut app = App::new();
    app.new_secret_name = "leftover".to_string();
    app.new_secret_value = "data".to_string();
    app.new_secret_expiration = "30".to_string();
    app.current_field = Field::Value;

    app.open_add_modal();

    assert_eq!(app.modal, Modal::AddSecret);
    assert!(app.new_secret_name.is_empty());
    assert!(app.new_secret_value.is_empty());
    assert!(app.new_secret_expiration.is_empty());
    assert_eq!(app.current_field, Field::Name);
}

#[test]
fn test_open_delete_modal() {
    let mut app = App::new();

    app.open_delete_modal();

    assert_eq!(app.modal, Modal::DeleteConfirm);
}

#[test]
fn test_open_help_modal() {
    let mut app = App::new();

    app.open_help_modal();

    assert_eq!(app.modal, Modal::Help);
}

#[test]
fn test_close_modal() {
    let mut app = App::new();
    app.modal = Modal::AddSecret;
    app.revealed_secret = Some("exposed_secret".to_string());

    app.close_modal();

    assert_eq!(app.modal, Modal::Closed);
    assert!(app.revealed_secret.is_none());
}

#[test]
fn test_set_and_clear_error() {
    let mut app = App::new();

    app.set_error("Something went wrong".to_string());
    assert_eq!(app.error_message, Some("Something went wrong".to_string()));

    app.clear_error();
    assert!(app.error_message.is_none());
}

#[test]
fn test_set_and_clear_status() {
    let mut app = App::new();

    app.set_status("Copied to clipboard!".to_string());
    assert_eq!(app.status_message, Some("Copied to clipboard!".to_string()));

    app.clear_status();
    assert!(app.status_message.is_none());
}

#[test]
fn test_secrets_count_without_store() {
    let app = App::new();
    assert_eq!(app.secrets_count(), 0);
}

#[test]
fn test_get_selected_secret_name_without_store() {
    let app = App::new();
    assert!(app.get_selected_secret_name().is_none());
}

#[test]
fn test_move_selection_empty_store() {
    let mut app = App::new();

    app.move_selection_up();
    assert_eq!(app.selected_index, 0);

    app.move_selection_down();
    assert_eq!(app.selected_index, 0);
}

#[test]
fn test_tab_navigates_fields() {
    let mut app = App::new();
    app.modal = Modal::AddSecret;
    app.current_field = Field::Name;

    app.handle_key(Key::Tab);
    assert_eq!(app.current_field, Field::Value);

    app.handle_key(Key::Tab);
    assert_eq!(app.current_field, Field::Expiration);

    app.handle_key(Key::Tab);
    assert_eq!(app.current_field, Field::Name);
}

#[test]
fn test_enter_navigates_fields_except_expiration() {
    let mut app = App::new();
    app.modal = Modal::AddSecret;
    app.current_field = Field::Name;

    app.handle_key(Key::Enter);
    assert_eq!(app.current_field, Field::Value);

    app.handle_key(Key::Enter);
    assert_eq!(app.current_field, Field::Expiration);

    app.handle_key(Key::Enter);
    assert_eq!(app.current_field, Field::Expiration);
}

#[test]
fn test_handle_key_add_modal_escape() {
    let mut app = App::new();
    app.modal = Modal::AddSecret;

    app.handle_key(Key::Esc);

    assert_eq!(app.modal, Modal::Closed);
}

#[test]
fn test_handle_key_add_modal_tab_navigates() {
    let mut app = App::new();
    app.modal = Modal::AddSecret;
    app.current_field = Field::Name;

    app.handle_key(Key::Tab);

    assert_eq!(app.current_field, Field::Value);
}

#[test]
fn test_handle_key_add_modal_char_input() {
    let mut app = App::new();
    app.modal = Modal::AddSecret;
    app.current_field = Field::Name;

    app.handle_key(Key::Char('A'));
    app.handle_key(Key::Char('P'));
    app.handle_key(Key::Char('I'));

    assert_eq!(app.new_secret_name, "API");
}

#[test]
fn test_handle_key_add_modal_backspace() {
    let mut app = App::new();
    app.modal = Modal::AddSecret;
    app.current_field = Field::Name;
    app.new_secret_name = "APIKEY".to_string();

    app.handle_key(Key::Backspace);

    assert_eq!(app.new_secret_name, "APIKE");
}

#[test]
fn test_handle_key_add_modal_expiration_only_digits() {
    let mut app = App::new();
    app.modal = Modal::AddSecret;
    app.current_field = Field::Expiration;

    app.handle_key(Key::Char('3'));
    app.handle_key(Key::Char('0'));
    app.handle_key(Key::Char('a'));

    assert_eq!(app.new_secret_expiration, "30");
}

#[test]
fn test_handle_key_delete_modal_escape() {
    let mut app = App::new();
    app.modal = Modal::DeleteConfirm;

    app.handle_key(Key::Esc);

    assert_eq!(app.modal, Modal::Closed);
}

#[test]
fn test_handle_key_delete_modal_n_closes() {
    let mut app = App::new();
    app.modal = Modal::DeleteConfirm;

    app.handle_key(Key::Char('n'));

    assert_eq!(app.modal, Modal::Closed);
}

#[test]
fn test_handle_key_help_modal_specific_keys_close() {
    let mut app = App::new();
    app.modal = Modal::Help;

    app.handle_key(Key::Char('x'));
    assert_eq!(app.modal, Modal::Help);

    app.handle_key(Key::Char('h'));
    assert_eq!(app.modal, Modal::Closed);

    app.modal = Modal::Help;
    app.handle_key(Key::Enter);
    assert_eq!(app.modal, Modal::Closed);
}

#[test]
fn test_handle_key_help_modal_escape_closes() {
    let mut app = App::new();
    app.modal = Modal::Help;

    app.handle_key(Key::Esc);

    assert_eq!(app.modal, Modal::Closed);
}

#[test]
fn test_handle_key_normal_mode_no_effect() {
    let mut app = App::new();
    app.modal = Modal::Closed;
    let initial_field = app.current_field;

    app.handle_key(Key::Tab);

    assert_eq!(app.current_field, initial_field);
}

fn app_with_store(names: &[&str]) -> App {
    let key = [0x42u8; 32];
    let mut store = SecretsStore::new();
    for n in names {
        store.add_secret(n.to_string(), "v".to_string(), None, &key).unwrap();
    }
    let mut app = App::new();
    app.secrets_store = Some(store);
    app
}

#[test]
fn selection_moves_within_the_list() {
    let mut app = app_with_store(&["B", "A", "C"]);
    assert_eq!(app.secrets_count(), 3);
    assert_eq!(app.get_secret_names(), vec!["A", "B", "C"]);
    assert_eq!(app.get_selected_secret_name(), Some("A".to_string()));
    app.revealed_secret = Some("x".to_string());
    app.handle_key(Key::Down);
    assert!(app.revealed_secret.is_none());
    app.move_selection_down();
    app.move_selection_down();
    assert_eq!(app.selected_index, 2);
    assert_eq!(app.get_selected_secret_name(), Some("C".to_string()));
    app.handle_key(Key::Up);
    assert_eq!(app.selected_index, 1);
}

#[test]
fn agent_pairs_take_precedence() {
    let mut app = app_with_store(&["S"]);
    app.agent_secrets = Some(vec![
        ("A1".to_string(), "x".to_string()),
        ("A2".to_string(), "y".to_string()),
    ]);
    assert_eq!(app.secrets_count(), 2);
    assert_eq!(app.get_secret_names(), vec!["A1", "A2"]);
    assert_eq!(app.get_agent_secret_value("A2"), Some("y".to_string()));
    assert_eq!(app.get_agent_secret_value("S"), None);
}

#[test]
fn command_suggestions_follow_lowercased_input() {
    let mut app = App::new();
    app.handle_key(Key::Char(':'));
    assert_eq!(app.modal, Modal::Command);
    assert_eq!(app.get_command_suggestions().len(), 6);
    app.handle_key(Key::Char('J'));
    let s = app.get_command_suggestions();
    assert_eq!(s.len(), 1);
    assert_eq!(s[0].0, "json");
    assert_eq!(app.get_selected_command(), Some("json"));
    app.handle_key(Key::Backspace);
    app.handle_key(Key::Char('z'));
    assert_eq!(app.get_selected_command(), Some("zsh"));
    app.handle_key(Key::Char('q'));
    assert_eq!(app.get_selected_command(), None);
}

#[test]
fn command_selection_wraps() {
    let mut app = App::new();
    app.open_command_modal();
    app.handle_key(Key::Up);
    assert_eq!(app.command_suggestion_index, 5);
    app.handle_key(Key::Tab);
    assert_eq!(app.command_suggestion_index, 0);
    app.handle_key(Key::Down);
    assert_eq!(app.get_selected_command(), Some("bash"));
    app.handle_key(Key::Esc);
    assert_eq!(app.modal, Modal::Closed);
}

#[test]
fn passphrase_prompt_keys() {
    let mut app = App::new();
    app.enter_init_mode();
    app.error_message = Some("bad".to_string());
    app.handle_key(Key::Char('p'));
    app.handle_key(Key::Char('w'));
    assert_eq!(app.passphrase, b"pw".to_vec());
    assert!(app.error_message.is_none());
    app.handle_key(Key::Backspace);
    assert_eq!(app.passphrase, b"p".to_vec());
    app.handle_key(Key::Esc);
    assert!(app.should_quit);
}

#[test]
fn normal_mode_keys_open_dialogs() {
    let mut app = App::new();
    app.handle_key(Key::Char('d'));
    assert_eq!(app.modal, Modal::Closed);
    app.handle_key(Key::Char('h'));
    assert_eq!(app.modal, Modal::Help);
    app.handle_key(Key::Esc);
    app.handle_key(Key::Char('a'));
    assert_eq!(app.modal, Modal::AddSecret);
    let mut app = app_with_store(&["A"]);
    app.handle_key(Key::Char('d'));
    assert_eq!(app.modal, Modal::DeleteConfirm);
    app.handle_key(Key::Char('y'));
    assert_eq!(app.modal, Modal::DeleteConfirm);
    let mut app = App::new();
    app.handle_key(Key::Char('q'));
    assert!(app.should_quit);
}

#[test]
fn expiration_days_parse() {
    let mut app = App::new();
    assert_eq!(app.get_expiration_days(), None);
    app.new_secret_expiration = "30".to_string();
    assert_eq!(app.get_expiration_days(), Some(30));
    app.new_secret_expiration = "+7".to_string();
    assert_eq!(app.get_expiration_days(), Some(7));
    app.new_secret_expiration = "4294967295".to_string();
    assert_eq!(app.get_expiration_days(), Some(u32::MAX));
    app.new_secret_expiration = "4294967296".to_string();
    assert_eq!(app.get_expiration_days(), None);
    app.new_secret_expiration = "12x".to_string();
    assert_eq!(app.get_expiration_days(), None);
    app.new_secret_expiration = "+".to_string();
    assert_eq!(app.get_expiration_days(), None);
}

#[test]
fn token_usages_kept_only_with_a_selection() {
    let usage = TokenUsage {
        file_path: "src/main.py".to_string(),
        line_number: 3,
        line_content: "os.environ['A']".to_string(),
    };
    let mut app = App::new();
    app.update_token_usages(vec![usage.clone()]);
    assert!(app.token_usages.is_empty());
    let mut app = app_with_store(&["A"]);
    app.update_token_usages(vec![usage]);
    assert_eq!(app.token_usages.len(), 1);
    assert_eq!(app.token_usages[0].line_number, 3);
}

#[test]
fn passphrase_keys_are_utf8() {
    let mut app = App::new();
    app.enter_init_mode();
    app.handle_key(Key::Char('p'));
    app.handle_key(Key::Char('é'));
    app.handle_key(Key::Char('€'));
    assert_eq!(app.passphrase, "pé€".as_bytes().to_vec());
    app.handle_key(Key::Backspace);
    assert_eq!(app.passphrase, "pé".as_bytes().to_vec());
    app.handle_key(Key::Backspace);
    assert_eq!(app.passphrase, b"p".to_vec());
    app.handle_key(Key::Backspace);
    app.handle_key(Key::Backspace);
    assert!(app.passphrase.is_empty());
}

#[test]
fn add_form_needs_name_and_value() {
    let mut app = App::new();
    app.open_add_modal();
    assert_eq!(app.add_form_error(), Some("Name is required"));
    app.new_secret_name = "N".to_string();
    assert_eq!(app.add_form_error(), Some("Value is required"));
    app.new_secret_value = "v".to_string();
    assert_eq!(app.add_form_error(), None);
}

#[test]
fn selection_clamped_after_delete() {
    let mut app = app_with_store(&["A", "B"]);
    app.selected_index = 5;
    app.clamp_selection();
    assert_eq!(app.selected_index, 1);
    let mut empty = App::new();
    empty.selected_index = 3;
    empty.clamp_selection();
    assert_eq!(empty.selected_index, 3);
}
