use baba_bot::casefile::{CaseFile, CaseFileAction, CaseFileError, CaseRecord};

fn err(text: &str) -> Result<CaseFileAction, CaseFileError> {
    Err(CaseFileError::ParsingError(text.to_string()))
}

#[test]
fn lowest_free_id() {
    assert_eq!(CaseFileAction::lowest_id_availible(&vec![]), 0);
    assert_eq!(CaseFileAction::lowest_id_availible(&vec![0, 1, 3]), 2);
    assert_eq!(CaseFileAction::lowest_id_availible(&vec![2, 1, 0]), 3);
    assert_eq!(CaseFileAction::lowest_id_availible(&vec![5]), 0);
}

#[test]
fn action_ids() {
    assert_eq!(CaseFileAction::Read { id: 4 }.id(), Some(4));
    assert_eq!(CaseFileAction::ViewAll.id(), None);
    assert_eq!(CaseFileAction::Create { name: "x".to_string() }.id(), None);
}

#[test]
fn actions_parse() {
    assert_eq!(
        "casefile create Foo v. Bar".parse::<CaseFileAction>(),
        Ok(CaseFileAction::Create { name: "Foo v. Bar".to_string() })
    );
    assert_eq!(CaseFileAction::parse("casefile read 3"), Ok(CaseFileAction::Read { id: 3 }));
    assert_eq!(
        CaseFileAction::parse("casefile add 3 a screenshot"),
        Ok(CaseFileAction::AddItem { id: 3, item: "a screenshot".to_string() })
    );
    assert_eq!(
        CaseFileAction::parse("casefile remove 3"),
        Ok(CaseFileAction::RemoveItem { id: 3, index: None })
    );
    assert_eq!(
        CaseFileAction::parse("casefile remove 3 1"),
        Ok(CaseFileAction::RemoveItem { id: 3, index: Some(1) })
    );
    assert_eq!(CaseFileAction::parse("casefile delete 2"), Ok(CaseFileAction::Delete { id: 2 }));
    assert_eq!(CaseFileAction::parse("casefile view"), Ok(CaseFileAction::ViewAll));
}

#[test]
fn actions_that_do_not_parse() {
    assert_eq!(CaseFileAction::parse("hello"), err("Not a casefile command"));
    assert_eq!(CaseFileAction::parse("casefile"), err("No valid action to take!"));
    assert_eq!(CaseFileAction::parse("casefile read"), err("no given index to read from"));
    assert_eq!(CaseFileAction::parse("casefile read x"), err("invalid digit found in string"));
    assert_eq!(CaseFileAction::parse("casefile read "), err("cannot parse integer from empty string"));
    assert_eq!(
        CaseFileAction::parse("casefile read 99999999999999999999"),
        err("number too large to fit in target type")
    );
    assert_eq!(CaseFileAction::parse("casefile add"), err("no given index to add to"));
    assert_eq!(CaseFileAction::parse("casefile add 1"), err("no item to add"));
    assert_eq!(CaseFileAction::parse("casefile remove"), err("no given index to remove from"));
    assert_eq!(CaseFileAction::parse("casefile delete"), err("no given index to delete"));
    assert_eq!(CaseFileAction::parse("casefile burn 1"), err("-burn"));
}

fn record(data: &str) -> CaseRecord {
    CaseRecord { name: "Foo v. Bar".to_string(), resolved: false, data: data.to_string() }
}

#[test]
fn stored_records_round_trip() {
    let file = CaseFile::from_id(&Some(record("Among us\nscreenshot"))).unwrap();
    assert_eq!(
        file,
        CaseFile {
            name: "Foo v. Bar".to_string(),
            resolved: false,
            items: vec!["Among us".to_string(), "screenshot".to_string()]
        }
    );
    assert_eq!(file.write_to_id(), record("Among us\nscreenshot"));
    assert_eq!(CaseFile::from_id(&Some(record(""))).unwrap().items, Vec::<String>::new());
    assert_eq!(
        CaseFile::from_id(&None),
        Err(CaseFileError::ParsingError("Couldn't get the case from the SQL database".to_string()))
    );
    let all = CaseFile::all_files(&vec![None, Some(record("a")), None, Some(record(""))]);
    assert_eq!(all.len(), 2);
    assert_eq!(all[0].items, vec!["a".to_string()]);
}

#[test]
fn case_file_accessors_and_edits() {
    let mut file = CaseFile { name: "N".to_string(), resolved: true, items: vec![] };
    assert!(file.is_resolved());
    assert_eq!(file.resolution(), "resolved");
    file.resolved = false;
    assert_eq!(file.resolution(), "unresolved");
    file.push_item("one");
    file.push_item("two");
    file.push_item("three");
    assert_eq!(file.remove_item(Some(1)), Some("two".to_string()));
    assert_eq!(file.remove_item(Some(5)), None);
    assert_eq!(file.remove_item(None), Some("three".to_string()));
    assert_eq!(file.items, vec!["one".to_string()]);
    file.remove_item(None);
    assert_eq!(file.remove_item(None), None);
}

#[test]
fn case_file_replies() {
    assert_eq!(
        CaseFileAction::created_reply("Foo", 3),
        "Successfully created file for 'Foo'. Access it with id `3`."
    );
    assert_eq!(CaseFileAction::added_reply(12), "Successfully wrote new item to Casefile #12!");
    assert_eq!(CaseFileAction::removed_reply(&Some("x".to_string()), 1), "Removed item `x` from Casefile #1.");
    assert_eq!(
        CaseFileAction::removed_reply(&None, 1),
        "Removed item `[unable to find item]` from Casefile #1."
    );
    assert_eq!(CaseFileAction::deleted_reply(0), "Successfully removed Casefile #0.");
    let file = CaseFile { name: "N".to_string(), resolved: false, items: vec!["a".to_string(), "b".to_string()] };
    assert_eq!(file.summary(4), "Case #4 => N\na\n> b\n> ");
    let other = CaseFile { name: "M".to_string(), resolved: true, items: vec![] };
    assert_eq!(
        CaseFileAction::overview(&vec![file, other]),
        "Here's all the casefiles: \n[unresolved] | N\n[resolved] | M\n"
    );
}

#[test]
fn casefile_parsing_creation() {
    let file = "Foo v. Bar|unresolved\n- Among us\n".parse::<CaseFile>();
    assert!(file.is_ok());
}

#[test]
fn case_file_text_format() {
    let file = CaseFile::parse("Foo v. Bar|resolved\nfirst\n- second\n- third").unwrap();
    assert_eq!(
        file,
        CaseFile {
            name: "Foo v. Bar".to_string(),
            resolved: true,
            items: vec!["first".to_string(), "second".to_string(), "third".to_string()]
        }
    );
    let file = CaseFile::parse("Foo v. Bar|unresolved\n- Among us\n").unwrap();
    assert_eq!(file.items, vec!["- Among us\n".to_string()]);
    assert_eq!(
        CaseFile::parse("no bar here"),
        Err(CaseFileError::ParsingError("No specification for resolution status".to_string()))
    );
    assert_eq!(
        CaseFile::parse("name|resolved"),
        Err(CaseFileError::ParsingError("Must be a newline after the resolution status".to_string()))
    );
    assert_eq!(
        CaseFile::parse("name|maybe\nx"),
        Err(CaseFileError::ParsingError(
            "resolution does not match 'resolved' or 'unresolved'".to_string()
        ))
    );
}

#[test]
fn case_file_as_text_and_error_messages() {
    let file = CaseFile { name: "N".to_string(), resolved: false, items: vec!["a".to_string(), "b".to_string()] };
    assert_eq!(file.to_text(), "N|unresolved\na\nb\n");
    let error = CaseFileError::ParsingError("oops".to_string());
    assert_eq!(error.message(), "parsing error: oops");
}

#[test]
fn a_new_case_is_stored_unresolved_and_empty() {
    let record = CaseFile::new("Foo v. Bar").write_to_id();
    assert_eq!(
        record,
        CaseRecord { name: "Foo v. Bar".to_string(), resolved: false, data: String::new() }
    );
    assert_eq!(CaseFile::from_id(&Some(record)).unwrap().items, Vec::<String>::new());
}
