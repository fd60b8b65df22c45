use litho::code_analyze::{decimal_string, CodeAnalyze};

#[test]
fn decimal_strings() {
    assert_eq!(decimal_string(0), "0");
    assert_eq!(decimal_string(7), "7");
    assert_eq!(decimal_string(10), "10");
    assert_eq!(decimal_string(1203), "1203");
    assert_eq!(decimal_string(usize::MAX), usize::MAX.to_string());
}

#[test]
fn all_files_analysed() {
    let step = CodeAnalyze::new("processor");
    assert_eq!(*step.language_processor(), "processor");
    let results: Vec<Result<u32, String>> = vec![Ok(1), Ok(2), Ok(3)];
    let report = step.collect_results(results);
    assert_eq!(report.success_count(), 3);
    assert_eq!(report.failed_count(), 0);
    assert_eq!(report.total_count, 3);
    assert_eq!(
        report.summary_message(),
        "✓ Concurrent code analysis completed, successfully analyzed 3 files (0 failed out of 3)"
    );
    assert_eq!(report.into_result(), Ok(vec![1, 2, 3]));
}

#[test]
fn some_files_failed() {
    let step = CodeAnalyze::new(());
    let results: Vec<Result<u32, String>> = vec![
        Ok(1),
        Err("a".to_string()),
        Ok(3),
        Err("b".to_string()),
        Err("c".to_string()),
    ];
    let report = step.collect_results(results);
    assert_eq!(report.code_insights, vec![1, 3]);
    assert_eq!(report.errors, vec!["a".to_string(), "b".to_string(), "c".to_string()]);
    assert_eq!(report.success_count() + report.failed_count(), report.total_count);
    assert_eq!(
        report.summary_message(),
        "✓ Concurrent code analysis completed, successfully analyzed 2 files (3 failed out of 5)"
    );
    assert_eq!(
        report.into_result(),
        Err("Preprocess stage failed due to 3 file analysis error(s)".to_string())
    );
}

#[test]
fn no_files() {
    let step = CodeAnalyze::new(0u8);
    let results: Vec<Result<u32, String>> = vec![];
    let report = step.collect_results(results);
    assert_eq!(report.total_count, 0);
    assert_eq!(report.into_result(), Ok(vec![]));
}
