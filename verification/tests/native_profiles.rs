use structuredmerge_core::{native_merge_profiles, operation_profile_catalog, OperationKind};

#[test]
fn common_operation_catalog_lists_scoped_support_without_availability_or_authority() {
    let catalog = operation_profile_catalog();
    assert_eq!(catalog.schema, "structuredmerge.operation-profile-catalog/v1");
    assert_eq!(catalog, operation_profile_catalog());
    assert_eq!(catalog.profiles.len(), 8);
    assert!(catalog.profiles.windows(2).all(|pair| pair[0].id < pair[1].id));
    for profile in &catalog.profiles {
        assert_eq!(profile.semantic_runtime, "rust");
        assert_eq!(profile.parser_available, None);
        assert!(!profile.approved_as_default);
        assert!(profile.experimental);
        assert!(!profile.syntax_scope.is_empty());
        assert!(profile.syntax_scope.iter().all(|scope| !scope.is_empty()));
        assert!(!profile.limitations.is_empty());
        assert_eq!(profile.parser_contract, "structuredmerge.parse-result/v1");
        let expected = match profile.provider_id.as_str() {
            "kernel.yaml" => {
                vec![OperationKind::Analyze, OperationKind::Diff2, OperationKind::Merge3]
            }
            "kernel.git.json" => vec![OperationKind::Merge3],
            "kernel.bash" | "kernel.go" | "kernel.json" | "kernel.python" | "kernel.rust"
            | "kernel.typescript" => vec![
                OperationKind::Analyze,
                OperationKind::Diff2,
                OperationKind::Merge2,
                OperationKind::Merge3,
            ],
            unexpected => panic!("unreviewed provider {unexpected}"),
        };
        assert_eq!(profile.operations, expected);
        assert_eq!(
            profile.required_native_extension.is_some(),
            matches!(profile.family.as_str(), "python" | "yaml")
        );
    }
    let typescript =
        catalog.profiles.iter().find(|profile| profile.family == "typescript").unwrap();
    assert_eq!(typescript.explicit_dialects, ["typescript", "tsx"]);
    // The old explicit-entry-point listing retains its narrower contract.
    assert_eq!(native_merge_profiles().len(), 2);
}

#[test]
fn native_profile_listing_is_deterministic_and_does_not_claim_default_authority() {
    let profiles = native_merge_profiles();
    assert_eq!(profiles, native_merge_profiles());
    assert_eq!(profiles.len(), 2);
    assert!(profiles.windows(2).all(|pair| pair[0].id < pair[1].id));
    for profile in profiles {
        assert_eq!(profile.operation, "merge3");
        assert_eq!(profile.semantic_runtime, "rust");
        assert_eq!(profile.merge_crate, "ast-merge");
        assert!(profile.experimental);
        assert!(!profile.approved_as_default);
        assert!(!profile.syntax_scope.is_empty());
        assert!(!profile.limitations.is_empty());
        assert!(profile.native_extension.ends_with("/v1"));
    }
}

#[test]
fn native_profiles_feed_the_catalog_and_merge2_profiles_carry_the_merge2_limit() {
    let catalog = operation_profile_catalog();
    let natives = native_merge_profiles();
    let python = catalog.profiles.iter().find(|p| p.family == "python").unwrap();
    assert_eq!(python.syntax_scope, natives[0].syntax_scope);
    assert_eq!(python.limitations.len(), natives[0].limitations.len() + 2);
    assert_eq!(python.limitations[..3], natives[0].limitations[..]);
    assert_eq!(python.required_native_extension.as_deref(), Some(natives[0].native_extension.as_str()));
    let yaml = catalog.profiles.iter().find(|p| p.family == "yaml").unwrap();
    assert_eq!(yaml.limitations.len(), natives[1].limitations.len() + 1);
    let git = catalog.profiles.iter().find(|p| p.id == "kernel.git.json.v1").unwrap();
    assert_eq!(git.limitations.len(), 2);
    assert!(git.limitations[1].starts_with("declared operations still require"));
    let bash = catalog.profiles.iter().find(|p| p.id == "kernel.bash.owners.v1").unwrap();
    assert_eq!(bash.limitations.len(), 3);
    assert!(bash.limitations[2].starts_with("merge2 is current-preferred"));
}
