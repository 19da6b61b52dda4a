use oxidizr_arch::experiments::UutilsExperiment;
use oxidizr_arch::utils::test_utils::MockWorker;

#[test]
fn test_check_compatible_scaffold() {
    let exp = UutilsExperiment {
        name: "coreutils".into(),
        package_name: "uutils-coreutils".into(),
        unified_binary: Some("/usr/bin/coreutils".to_string()),
        bin_directory: "/usr/lib/uutils/coreutils".to_string(),
    };
    let worker = MockWorker::default();
    let ok = exp.check_compatible(&worker).unwrap();
    assert!(ok);
}
