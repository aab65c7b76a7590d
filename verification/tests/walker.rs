use keyword_index::exclusion::FilterConfigError;
use keyword_index::results::ResultSet;
use keyword_index::walker::{
    handle_epub_file, handle_pdf_file, index_text, plan_entry, process_subdirectory, Event,
    Failure, Format, Halt, Harvest, PdfOutcome, Plan,
};

fn strings(items: &[&str]) -> Vec<String> {
    items.iter().map(|s| s.to_string()).collect()
}

fn keywords_of(set: ResultSet, file_name: &str) -> Vec<Vec<String>> {
    let mut found: Vec<Vec<String>> = set
        .into_entries()
        .into_iter()
        .filter(|entry| entry.1.filename == file_name)
        .map(|entry| entry.1.keywords)
        .collect();
    found.sort();
    found
}

fn pdf(name: &str, text: &str) -> Event {
    Event::Pdf {
        file_name: name.to_string(),
        outcome: PdfOutcome::Text(text.to_string()),
        exclusion_table: None,
    }
}

#[test]
fn plan_by_extension() {
    assert_eq!(plan_entry("a.pdf", false, true), Plan { extract: Some(Format::Pdf), descend: false });
    assert_eq!(plan_entry("a.epub", false, false), Plan { extract: Some(Format::Epub), descend: false });
    assert_eq!(plan_entry("a.txt", false, true), Plan { extract: None, descend: false });
    assert_eq!(plan_entry("pdf", false, true), Plan { extract: None, descend: false });
    assert_eq!(plan_entry("a.PDF", false, true), Plan { extract: None, descend: false });
    assert_eq!(plan_entry(".pdf", false, true), Plan { extract: Some(Format::Pdf), descend: false });
}

#[test]
fn plan_descends_only_into_directories_of_a_recursive_walk() {
    assert_eq!(plan_entry("sub", true, true), Plan { extract: None, descend: true });
    assert_eq!(plan_entry("sub", true, false), Plan { extract: None, descend: false });
    assert_eq!(plan_entry("sub", false, true), Plan { extract: None, descend: false });
    // A directory may be named like a document: it is both read and walked.
    assert_eq!(plan_entry("odd.pdf", true, true), Plan { extract: Some(Format::Pdf), descend: true });
}

#[test]
fn text_is_indexed_under_a_fresh_identifier() {
    let mut set = ResultSet::new();
    assert_eq!(index_text(&mut set, "a.pdf", "whale whale ocean", None), Ok(()));
    assert_eq!(index_text(&mut set, "b.pdf", "ship", None), Ok(()));
    assert_eq!(set.len(), 2);
    let entries = set.clone().into_entries();
    for (id, _) in &entries {
        let parts: Vec<&str> = id.split('_').collect();
        assert_eq!(parts.len(), 2);
        assert!(parts[0].parse::<u128>().is_ok());
        assert!(parts[1].parse::<u64>().is_ok());
    }
    assert_eq!(keywords_of(set.clone(), "a.pdf"), vec![strings(&["Whale", "Ocean"])]);
    assert_eq!(keywords_of(set, "b.pdf"), vec![strings(&["Ship"])]);
}

#[test]
fn exclusion_table_reaches_the_keywords_of_a_file() {
    let mut harvest = Harvest::new();
    let event = Event::Pdf {
        file_name: "f.pdf".to_string(),
        outcome: PdfOutcome::Text("Dogs dog cat cat".to_string()),
        exclusion_table: Some(b"dog\n".to_vec()),
    };
    assert_eq!(harvest.apply(event), Ok(()));
    assert_eq!(keywords_of(harvest.documents, "f.pdf"), vec![strings(&["Cat"])]);
}

#[test]
fn unreadable_pdf_is_reported() {
    let mut set = ResultSet::new();
    let outcome = PdfOutcome::Unreadable("permission denied".to_string());
    assert_eq!(
        handle_pdf_file(&mut set, "a.pdf", outcome, None),
        Err(Failure::Recorded("Error reading PDF file a.pdf: permission denied".to_string()))
    );
    assert_eq!(set.len(), 0);
}

#[test]
fn undecodable_pdf_is_reported() {
    let mut set = ResultSet::new();
    let outcome = PdfOutcome::Undecodable("bad header".to_string());
    assert_eq!(
        handle_pdf_file(&mut set, "a.pdf", outcome, None),
        Err(Failure::Recorded("Error extracting text from PDF a.pdf: bad header".to_string()))
    );
    assert_eq!(set.len(), 0);
}

#[test]
fn pdf_text_gives_a_document() {
    let mut set = ResultSet::new();
    let outcome = PdfOutcome::Text("Whale whale ocean 1851".to_string());
    assert_eq!(handle_pdf_file(&mut set, "moby.pdf", outcome, None), Ok(()));
    assert_eq!(set.len(), 1);
    assert_eq!(keywords_of(set, "moby.pdf"), vec![strings(&["Whale", "1851", "Ocean"])]);
}

#[test]
fn pdf_with_malformed_exclusion_term_is_a_configuration_failure() {
    let mut set = ResultSet::new();
    let table: &[u8] = b"(\n";
    let outcome = PdfOutcome::Text("whale".to_string());
    assert_eq!(
        handle_pdf_file(&mut set, "moby.pdf", outcome, Some(table)),
        Err(Failure::Config(FilterConfigError { pattern: "\\b(?:(|(s)\\b".to_string() }))
    );
    assert_eq!(set.len(), 0);
}

#[test]
fn unreadable_epub_is_reported() {
    let mut set = ResultSet::new();
    assert_eq!(
        handle_epub_file(&mut set, "a.epub", Err("no such file".to_string()), None),
        Err(Failure::Recorded("Error collecting resources from EPUB a.epub: no such file".to_string()))
    );
    assert_eq!(set.len(), 0);
}

#[test]
fn broken_epub_is_reported() {
    let mut set = ResultSet::new();
    let outcome = handle_epub_file(&mut set, "a.epub", Ok(b"no archive".to_vec()), None);
    match outcome {
        Err(Failure::Recorded(message)) => {
            let prefix = "Error collecting resources from EPUB a.epub: ";
            assert!(message.starts_with(prefix));
            assert!(message.len() > prefix.len());
        }
        other => panic!("unexpected outcome {:?}", other),
    }
    assert_eq!(set.len(), 0);
}

#[test]
fn epub_without_entries_gives_a_document_without_keywords() {
    let mut set = ResultSet::new();
    // An archive that holds nothing: the end-of-directory record alone.
    let mut data = vec![0x50, 0x4b, 0x05, 0x06];
    data.extend_from_slice(&[0u8; 18]);
    assert_eq!(handle_epub_file(&mut set, "void.epub", Ok(data), None), Ok(()));
    assert_eq!(keywords_of(set, "void.epub"), vec![strings(&[])]);
}

#[test]
fn subdirectory_harvest_is_merged() {
    let mut documents = ResultSet::new();
    let mut errors = strings(&["first"]);
    index_text(&mut documents, "a.pdf", "whale", None).unwrap();
    let mut inner = Harvest::new();
    inner.apply(pdf("b.pdf", "ocean")).unwrap();
    inner.apply(Event::NameInvalid).unwrap();
    assert_eq!(process_subdirectory(&mut documents, &mut errors, Ok(inner)), Ok(()));
    assert_eq!(documents.len(), 2);
    assert_eq!(errors, strings(&["first", "Invalid file name"]));
}

#[test]
fn unreadable_subdirectory_is_handed_back() {
    let mut documents = ResultSet::new();
    let mut errors = strings(&["first"]);
    assert_eq!(
        process_subdirectory(&mut documents, &mut errors, Err("cannot open".to_string())),
        Err("cannot open".to_string())
    );
    assert_eq!(documents.len(), 0);
    assert_eq!(errors, strings(&["first"]));
}

#[test]
fn new_harvest_is_empty() {
    let harvest = Harvest::new();
    assert_eq!(harvest.documents.len(), 0);
    assert_eq!(harvest.errors, strings(&[]));
}

#[test]
fn entry_failures_are_logged() {
    let mut harvest = Harvest::new();
    assert_eq!(harvest.apply(Event::EntryUnreadable("gone".to_string())), Ok(()));
    assert_eq!(harvest.apply(Event::NameInvalid), Ok(()));
    assert_eq!(harvest.apply(Event::Subdirectory(Err("denied".to_string()))), Ok(()));
    assert_eq!(
        harvest.errors,
        strings(&["Error reading directory entry: gone", "Invalid file name", "denied"])
    );
    assert_eq!(harvest.documents.len(), 0);
}

#[test]
fn files_of_other_names_are_passed_over() {
    let mut harvest = Harvest::new();
    assert_eq!(harvest.apply(pdf("", "whale")), Ok(()));
    assert_eq!(harvest.apply(pdf("notes.txt", "whale")), Ok(()));
    assert_eq!(harvest.apply(pdf("book.epub", "whale")), Ok(()));
    let event = Event::Epub { file_name: String::new(), read: Ok(Vec::new()), exclusion_table: None };
    assert_eq!(harvest.apply(event), Ok(()));
    let event = Event::Epub {
        file_name: "book.pdf".to_string(),
        read: Err("vanished".to_string()),
        exclusion_table: None,
    };
    assert_eq!(harvest.apply(event), Ok(()));
    assert_eq!(harvest.errors, strings(&[]));
    assert_eq!(harvest.documents.len(), 0);
}

#[test]
fn corrupted_files_are_logged_and_siblings_processed() {
    let mut harvest = Harvest::new();
    assert_eq!(harvest.apply(pdf("a.pdf", "whale whale")), Ok(()));
    let bad_pdf = Event::Pdf {
        file_name: "bad.pdf".to_string(),
        outcome: PdfOutcome::Undecodable("not a PDF".to_string()),
        exclusion_table: None,
    };
    assert_eq!(harvest.apply(bad_pdf), Ok(()));
    let bad_epub = Event::Epub {
        file_name: "bad.epub".to_string(),
        read: Ok(b"garbage".to_vec()),
        exclusion_table: None,
    };
    assert_eq!(harvest.apply(bad_epub), Ok(()));
    let lost_epub = Event::Epub {
        file_name: "lost.epub".to_string(),
        read: Err("vanished".to_string()),
        exclusion_table: None,
    };
    assert_eq!(harvest.apply(lost_epub), Ok(()));
    assert_eq!(harvest.apply(pdf("b.pdf", "ocean")), Ok(()));

    assert_eq!(harvest.errors.len(), 3);
    assert_eq!(harvest.errors[0], "Error extracting text from PDF bad.pdf: not a PDF");
    assert!(harvest.errors[1].starts_with("Error collecting resources from EPUB bad.epub: "));
    assert_eq!(harvest.errors[2], "Error collecting resources from EPUB lost.epub: vanished");
    assert_eq!(harvest.documents.len(), 2);
    let names: Vec<String> = {
        let mut names: Vec<String> = harvest
            .documents
            .clone()
            .into_entries()
            .into_iter()
            .map(|entry| entry.1.filename)
            .collect();
        names.sort();
        names
    };
    assert_eq!(names, strings(&["a.pdf", "b.pdf"]));
}

#[test]
fn malformed_exclusion_term_halts_the_walk() {
    let mut harvest = Harvest::new();
    harvest.apply(pdf("a.pdf", "whale")).unwrap();
    let event = Event::Pdf {
        file_name: "b.pdf".to_string(),
        outcome: PdfOutcome::Text("ocean".to_string()),
        exclusion_table: Some(b"[\n".to_vec()),
    };
    assert_eq!(
        harvest.apply(event),
        Err(Halt::Config(FilterConfigError { pattern: "\\b(?:[|[s)\\b".to_string() }))
    );
    assert_eq!(harvest.documents.len(), 1);
    assert_eq!(harvest.errors, strings(&[]));
}

#[test]
fn nested_directories_give_one_document_per_file() {
    // root: 2 files, sub: 3 files, sub/deep: 1 file, other: no file.
    let mut deep = Harvest::new();
    deep.apply(pdf("f.pdf", "six")).unwrap();
    let mut sub = Harvest::new();
    sub.apply(pdf("c.pdf", "three")).unwrap();
    sub.apply(Event::Subdirectory(Ok(deep))).unwrap();
    sub.apply(pdf("d.pdf", "four")).unwrap();
    sub.apply(pdf("e.pdf", "five")).unwrap();
    let other = Harvest::new();
    let mut root = Harvest::new();
    root.apply(Event::Subdirectory(Ok(other))).unwrap();
    root.apply(pdf("a.pdf", "one")).unwrap();
    root.apply(Event::Subdirectory(Ok(sub))).unwrap();
    root.apply(pdf("b.pdf", "two")).unwrap();
    assert_eq!(root.documents.len(), 6);
    assert_eq!(root.errors, strings(&[]));
    let mut names: Vec<String> =
        root.documents.into_entries().into_iter().map(|entry| entry.1.filename).collect();
    names.sort();
    assert_eq!(names, strings(&["a.pdf", "b.pdf", "c.pdf", "d.pdf", "e.pdf", "f.pdf"]));
}

#[test]
fn errors_of_subdirectories_come_after_those_at_hand() {
    let mut sub = Harvest::new();
    sub.apply(Event::EntryUnreadable("inner".to_string())).unwrap();
    let mut root = Harvest::new();
    root.apply(Event::NameInvalid).unwrap();
    root.apply(Event::Subdirectory(Ok(sub))).unwrap();
    root.apply(Event::EntryUnreadable("outer".to_string())).unwrap();
    assert_eq!(
        root.errors,
        strings(&[
            "Invalid file name",
            "Error reading directory entry: inner",
            "Error reading directory entry: outer",
        ])
    );
}
