use std::cell::RefCell;
use tola::orchestrate::{collect_files, filter_accepts, process_files, report, FileFilter, Found};

fn file(path: &str) -> Found {
    Found::File { path: path.to_string() }
}

fn dir(entries: Vec<Found>) -> Found {
    Found::Dir { entries }
}

#[test]
fn failing_file_does_not_stop_the_others() {
    let files: Vec<String> = (1..=10).map(|i| format!("file-{i}")).collect();
    let seen = RefCell::new(Vec::new());
    let result = process_files(&files, |path: &String| {
        seen.borrow_mut().push(path.clone());
        if path == "file-3" {
            Err(format!("{path} failed"))
        } else {
            Ok(())
        }
    });
    assert_eq!(result, Err("file-3 failed".to_string()));
    assert_eq!(*seen.borrow(), files);
}

#[test]
fn first_of_several_errors_is_reported() {
    let files: Vec<String> = (1..=5).map(|i| format!("f{i}")).collect();
    let count = RefCell::new(0);
    let result = process_files(&files, |path: &String| {
        *count.borrow_mut() += 1;
        if path == "f2" || path == "f4" {
            Err(path.clone())
        } else {
            Ok(())
        }
    });
    assert_eq!(result, Err("f2".to_string()));
    assert_eq!(*count.borrow(), 5);
    assert_eq!(report::<String>(vec![Ok(()), Ok(())]), Ok(()));
    assert_eq!(report::<String>(vec![]), Ok(()));
    assert_eq!(report(vec![Ok(()), Err(2), Err(3)]), Err(2));
}

#[test]
fn run_without_files_succeeds() {
    let result: Result<(), String> = process_files(&vec![], |_: &String| Err("no".to_string()));
    assert_eq!(result, Ok(()));
}

#[test]
fn discovery_is_depth_first_and_skips_what_does_not_match() {
    let listing = vec![
        file("content/index.typ"),
        dir(vec![]),
        dir(vec![file("content/posts/a.typ"), file("content/posts/pic.png"), dir(vec![file("content/posts/deep/b.typ")])]),
        file("content/notes.txt"),
        file("content/.typ"),
    ];
    let typ = FileFilter::Extension("typ".to_string());
    assert_eq!(
        collect_files(&listing, &typ),
        vec!["content/index.typ", "content/posts/a.typ", "content/posts/deep/b.typ"]
    );
    assert_eq!(collect_files(&listing, &FileFilter::Any).len(), 6);
    assert_eq!(collect_files(&vec![dir(vec![dir(vec![])])], &FileFilter::Any), Vec::<String>::new());
}

#[test]
fn extension_is_taken_from_the_file_name() {
    let typ = FileFilter::Extension("typ".to_string());
    assert!(filter_accepts(&typ, "a.typ"));
    assert!(filter_accepts(&typ, "dir.d/a.b.typ"));
    assert!(!filter_accepts(&typ, "a.typ/b"));
    assert!(!filter_accepts(&typ, ".typ"));
    assert!(!filter_accepts(&typ, "dir/.typ"));
    assert!(!filter_accepts(&typ, "atyp"));
    assert!(!filter_accepts(&typ, "a.typx"));
    assert!(filter_accepts(&FileFilter::Any, ""));
}
