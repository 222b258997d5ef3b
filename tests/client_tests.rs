use enva::client::{decode_fetched_files, hook_script, is_env_file_name, prepare_commit_files};
use enva::error::EnvaError;

#[test]
fn env_file_names() {
    assert!(is_env_file_name(".env"));
    assert!(is_env_file_name(".env.production"));
    assert!(!is_env_file_name("env"));
    assert!(!is_env_file_name(".en"));
    assert!(!is_env_file_name("a.env"));
}

#[test]
fn hook_script_on_empty_file() {
    assert_eq!(hook_script("", "enva commit"), "#!/bin/sh\n\nenva commit");
}

#[test]
fn hook_script_keeps_existing_shebang_and_line() {
    let s = "#!/bin/sh\necho hi\nenva commit";
    assert_eq!(hook_script(s, "enva commit"), s);
    assert_eq!(hook_script("#!/bin/sh\necho hi", "enva fetch"), "#!/bin/sh\necho hi\nenva fetch");
}

#[test]
fn plaintext_files_pass_unchanged() {
    let f = vec![(".env".to_string(), "A=1".to_string())];
    assert_eq!(prepare_commit_files("https://github.com/acme/widgets", &f, false), Ok(f.clone()));
    assert_eq!(decode_fetched_files("https://github.com/acme/widgets", &f, false), Ok(f.clone()));
}

#[test]
fn encrypted_files_need_a_valid_url() {
    let f = vec![(".env".to_string(), "A=1".to_string())];
    assert_eq!(prepare_commit_files("nonsense", &f, true), Err(EnvaError::InvalidRepoUrl("nonsense".to_string())));
    assert_eq!(decode_fetched_files("nonsense", &f, true), Err(EnvaError::InvalidRepoUrl("nonsense".to_string())));
}

#[test]
fn encrypted_empty_set_needs_no_key() {
    let none: Vec<(String, String)> = vec![];
    assert_eq!(prepare_commit_files("nonsense", &none, true), Ok(vec![]));
    assert_eq!(decode_fetched_files("nonsense", &none, true), Ok(vec![]));
}
