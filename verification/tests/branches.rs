use coco::branch::Candidates;
use coco::error::Error;
use coco::error::StorageError;
use coco::ident::PeerId;
use coco::ident::Urn;
use coco::identity::Person;
use coco::identity::Project;
use coco::reference::Category;
use coco::reference::is_slash_free;
use coco::reference::Reference;
use coco::refname::is_ref_name;
use coco::state::State;
use either::Either;
use radicle_surf::radicle_git_ref_format::lit;
use radicle_surf::radicle_git_ref_format::Component;
use radicle_surf::radicle_git_ref_format::Qualified;
use radicle_surf::radicle_git_ref_format::RefString;

fn local_state() -> State {
    State::new(PeerId::new("hyn-local"), PeerId::new("hyn-local"))
}

fn person(name: &str, keys: &[&str]) -> Person {
    Person {
        urn: Urn::new(&format!("urn-of-{}", name)),
        name: name.to_string(),
        keys: keys.iter().map(|key| PeerId::new(key)).collect(),
    }
}

fn project(default_branch: Option<&str>, delegations: Vec<Either<PeerId, Person>>) -> Project {
    Project {
        urn: Urn::new("hwd1yre8"),
        name: "radicalise".to_string(),
        description: Some("the people".to_string()),
        default_branch: default_branch.map(|name| name.to_string()),
        delegations,
    }
}

/// Resolves the default branch against a store that holds exactly `held`.
fn resolve(state: &State, project: &Project, held: &[Reference]) -> Result<Reference, Error> {
    let Candidates { owner, delegate } = state.default_branch_candidates(project)?;
    let owner_exists = held.contains(&owner);
    let owner = state.get_branch(owner, Ok(owner_exists));
    let delegate = delegate.map(|reference| {
        let exists = held.contains(&reference);
        state.get_branch(reference, Ok(exists))
    });
    state.find_default_branch(project, owner, delegate)
}

#[test]
fn owner_head_is_spelled_out() {
    let reference = Reference::head(Urn::new("hwd1yre8"), None, "power");
    assert_eq!(reference.path(), "refs/namespaces/hwd1yre8/refs/heads/power");
}

#[test]
fn remote_head_is_spelled_out() {
    let reference = Reference::head(Urn::new("hwd1yre8"), Some(PeerId::new("hyb79")), "power");
    assert_eq!(
        reference.path(),
        "refs/namespaces/hwd1yre8/refs/remotes/hyb79/heads/power"
    );
}

#[test]
fn self_reference_is_spelled_out() {
    let own = Reference::rad_self(Urn::new("hwd1yre8"), None);
    assert_eq!(own.category, Category::Rad);
    assert_eq!(own.path(), "refs/namespaces/hwd1yre8/refs/rad/self");
    let theirs = Reference::rad_self(Urn::new("hwd1yre8"), Some(PeerId::new("hyb79")));
    assert_eq!(
        theirs.path(),
        "refs/namespaces/hwd1yre8/refs/remotes/hyb79/rad/self"
    );
}

#[test]
fn signed_refs_reference_is_spelled_out() {
    let own = Reference::rad_signed_refs(Urn::new("hwd1yre8"), None);
    assert_eq!(own.path(), "refs/namespaces/hwd1yre8/refs/rad/signed-refs");
    let theirs = Reference::rad_signed_refs(Urn::new("hwd1yre8"), Some(PeerId::new("hyb79")));
    assert_eq!(
        theirs.path(),
        "refs/namespaces/hwd1yre8/refs/remotes/hyb79/rad/signed-refs"
    );
}

#[test]
fn spelling_agrees_with_the_reference_format() {
    let name = |text: &str| RefString::try_from(text).unwrap();
    let namespace = || Component::from_refstr(name("hwd1yre8")).unwrap();

    let owners: Qualified = lit::refs_heads(name("feature/x")).into();
    assert_eq!(
        Reference::head(Urn::new("hwd1yre8"), None, "feature/x").path(),
        owners.with_namespace(namespace()).to_string()
    );

    let theirs: Qualified = lit::refs_remotes(name("hyb79/heads/power")).into();
    assert_eq!(
        Reference::head(Urn::new("hwd1yre8"), Some(PeerId::new("hyb79")), "power").path(),
        theirs.with_namespace(namespace()).to_string()
    );
}

#[test]
fn empty_branch_name_keeps_the_separators() {
    let reference = Reference::head(Urn::new(""), Some(PeerId::new("")), "");
    assert_eq!(reference.path(), "refs/namespaces//refs/remotes//heads/");
}

#[test]
fn branch_of_the_local_peer_is_the_owners() {
    let state = local_state();
    let urn = Urn::new("hwd1yre8");
    let asked = state.branch_reference(&urn, Some(PeerId::new("hyn-local")), "power").unwrap();
    assert_eq!(asked.remote, None);
    assert_eq!(asked, Reference::head(urn.clone(), None, "power"));
    let other = state.branch_reference(&urn, Some(PeerId::new("hyb79")), "power").unwrap();
    assert_eq!(other.remote, Some(PeerId::new("hyb79")));
    let none = state.branch_reference(&urn, None, "power").unwrap();
    assert_eq!(none, asked);
}

#[test]
fn branch_needs_a_reference_name() {
    let state = local_state();
    let urn = Urn::new("hwd1yre8");
    for refused in ["", "po..wer", "power.lock", "po wer", "/power", "power/", "po~wer", "@"] {
        assert_eq!(
            state.branch_reference(&urn, None, refused),
            Err(Error::InvalidName { name: refused.to_string() })
        );
        assert!(!is_ref_name(refused));
    }
    for accepted in ["power", "feature/x", "v1.0", "heads/power"] {
        assert_eq!(
            state.branch_reference(&urn, None, accepted),
            Ok(Reference::head(urn.clone(), None, accepted))
        );
        assert!(is_ref_name(accepted));
    }
}

#[test]
fn checked_name_decides_on_the_reference() {
    let state = local_state();
    let urn = Urn::new("hwd1yre8");
    assert_eq!(
        state.named_branch(&urn, Some(PeerId::new("hyb79")), "power", true),
        Ok(Reference::head(urn.clone(), Some(PeerId::new("hyb79")), "power"))
    );
    assert_eq!(
        state.named_branch(&urn, Some(PeerId::new("hyn-local")), "power", true),
        Ok(Reference::head(urn.clone(), None, "power"))
    );
    assert_eq!(
        state.named_branch(&urn, Some(PeerId::new("hyb79")), "power", false),
        Err(Error::InvalidName { name: "power".to_string() })
    );
}

#[test]
fn declared_branch_needs_a_reference_name() {
    let state = local_state();
    let subject = project(Some("po..wer"), vec![Either::Left(PeerId::new("hyb-one"))]);
    assert_eq!(
        state.default_branch_candidates(&subject),
        Err(Error::InvalidName { name: "po..wer".to_string() })
    );
    assert_eq!(
        resolve(&state, &subject, &[]),
        Err(Error::InvalidName { name: "po..wer".to_string() })
    );
}

#[test]
fn branch_that_exists_is_returned() {
    let state = local_state();
    let reference = Reference::head(Urn::new("hwd1yre8"), None, "power");
    assert_eq!(
        state.get_branch(reference.clone(), Ok(true)),
        Ok(reference)
    );
}

#[test]
fn branch_that_is_missing_names_its_reference() {
    let state = local_state();
    let reference = Reference::head(Urn::new("hwd1yre8"), None, "power");
    assert_eq!(
        state.get_branch(reference.clone(), Ok(false)),
        Err(Error::MissingRef { reference })
    );
}

#[test]
fn branch_lookup_hands_a_storage_fault_on() {
    let state = local_state();
    let reference = Reference::head(Urn::new("hwd1yre8"), None, "power");
    let fault = StorageError::Fault("disk".to_string());
    assert_eq!(
        state.get_branch(reference, Err(fault.clone())),
        Err(Error::Storage(fault))
    );
}

#[test]
fn requested_branch_goes_before_the_declared_one() {
    let with_default = project(Some("power"), vec![]);
    assert_eq!(
        with_default.branch_or_default(Some("dope".to_string())),
        Some("dope".to_string())
    );
    assert_eq!(with_default.branch_or_default(None), Some("power".to_string()));
    let without = project(None, vec![]);
    assert_eq!(without.branch_or_default(None), None);
}

#[test]
fn first_delegate_is_the_first_key_in_stored_order() {
    let direct = project(
        Some("power"),
        vec![
            Either::Left(PeerId::new("hyb-one")),
            Either::Right(person("kalt", &["hyb-two", "hyb-three"])),
        ],
    );
    assert_eq!(direct.first_delegate(), Some(&PeerId::new("hyb-one")));
    let nested = project(
        Some("power"),
        vec![
            Either::Right(person("nobody", &[])),
            Either::Right(person("kalt", &["hyb-two", "hyb-three"])),
            Either::Left(PeerId::new("hyb-one")),
        ],
    );
    assert_eq!(nested.first_delegate(), Some(&PeerId::new("hyb-two")));
    let empty = project(Some("power"), vec![Either::Right(person("nobody", &[]))]);
    assert_eq!(empty.first_delegate(), None);
}

#[test]
fn delegates_are_the_keys_of_every_entry() {
    let subject = project(
        Some("power"),
        vec![
            Either::Left(PeerId::new("hyb-one")),
            Either::Right(person("kalt", &["hyb-two", "hyb-three"])),
        ],
    );
    assert!(subject.is_delegate(&PeerId::new("hyb-one")));
    assert!(subject.is_delegate(&PeerId::new("hyb-two")));
    assert!(subject.is_delegate(&PeerId::new("hyb-three")));
    assert!(!subject.is_delegate(&PeerId::new("hyb-four")));
    assert!(!project(Some("power"), vec![]).is_delegate(&PeerId::new("hyb-one")));
}

#[test]
fn candidates_are_the_owner_and_the_first_delegate() {
    let state = local_state();
    let subject = project(
        Some("power"),
        vec![
            Either::Left(PeerId::new("hyb-one")),
            Either::Left(PeerId::new("hyb-two")),
        ],
    );
    let candidates = state.default_branch_candidates(&subject).unwrap();
    assert_eq!(
        candidates.owner.path(),
        "refs/namespaces/hwd1yre8/refs/heads/power"
    );
    assert_eq!(
        candidates.delegate.map(|reference| reference.path()),
        Some("refs/namespaces/hwd1yre8/refs/remotes/hyb-one/heads/power".to_string())
    );
}

#[test]
fn project_without_declared_branch_has_no_default_branch() {
    let state = local_state();
    let subject = project(None, vec![Either::Left(PeerId::new("hyb-one"))]);
    assert_eq!(
        state.default_branch_candidates(&subject),
        Err(Error::NoDefaultBranch {
            name: "radicalise".to_string(),
            urn: Urn::new("hwd1yre8"),
        })
    );
}

#[test]
fn owner_wins_when_the_first_delegate_has_the_branch_too() {
    let state = local_state();
    let subject = project(Some("power"), vec![Either::Left(PeerId::new("hyb-one"))]);
    let owners = Reference::head(Urn::new("hwd1yre8"), None, "power");
    let delegates = Reference::head(Urn::new("hwd1yre8"), Some(PeerId::new("hyb-one")), "power");
    let held = vec![delegates, owners.clone()];
    assert_eq!(resolve(&state, &subject, &held), Ok(owners.clone()));
    assert_eq!(resolve(&state, &subject, &[owners.clone()]), Ok(owners));
}

#[test]
fn first_delegate_stands_in_for_the_owner() {
    let state = local_state();
    let subject = project(
        Some("power"),
        vec![
            Either::Left(PeerId::new("hyb-one")),
            Either::Left(PeerId::new("hyb-two")),
        ],
    );
    let delegates = Reference::head(Urn::new("hwd1yre8"), Some(PeerId::new("hyb-one")), "power");
    assert_eq!(
        resolve(&state, &subject, &[delegates.clone()]),
        Ok(delegates)
    );
}

#[test]
fn later_delegate_is_not_consulted() {
    let state = local_state();
    let subject = project(
        Some("power"),
        vec![
            Either::Left(PeerId::new("hyb-one")),
            Either::Left(PeerId::new("hyb-two")),
        ],
    );
    let later = Reference::head(Urn::new("hwd1yre8"), Some(PeerId::new("hyb-two")), "power");
    assert_eq!(
        resolve(&state, &subject, &[later]),
        Err(Error::NoDefaultBranch {
            name: "radicalise".to_string(),
            urn: Urn::new("hwd1yre8"),
        })
    );
}

#[test]
fn nobody_has_the_branch() {
    let state = local_state();
    let subject = project(Some("power"), vec![Either::Left(PeerId::new("hyb-one"))]);
    assert_eq!(
        resolve(&state, &subject, &[]),
        Err(Error::NoDefaultBranch {
            name: "radicalise".to_string(),
            urn: Urn::new("hwd1yre8"),
        })
    );
}

#[test]
fn project_without_delegates_asks_the_owner_only() {
    let state = local_state();
    let subject = project(Some("power"), vec![]);
    let candidates = state.default_branch_candidates(&subject).unwrap();
    assert_eq!(candidates.delegate, None);
    let owners = Reference::head(Urn::new("hwd1yre8"), None, "power");
    assert_eq!(resolve(&state, &subject, &[owners.clone()]), Ok(owners));
    assert!(matches!(
        resolve(&state, &subject, &[]),
        Err(Error::NoDefaultBranch { .. })
    ));
}

#[test]
fn undeclared_branch_is_never_resolved() {
    let state = local_state();
    let subject = project(None, vec![Either::Left(PeerId::new("hyb-one"))]);
    let owners = Reference::head(Urn::new("hwd1yre8"), None, "power");
    let delegates = Reference::head(Urn::new("hwd1yre8"), Some(PeerId::new("hyb-one")), "power");
    let none = Error::NoDefaultBranch { name: "radicalise".to_string(), urn: Urn::new("hwd1yre8") };
    assert_eq!(
        state.find_default_branch(&subject, Ok(owners.clone()), Some(Ok(delegates))),
        Err(none.clone())
    );
    assert_eq!(state.find_default_branch(&subject, Ok(owners), None), Err(none.clone()));
    let fault = Error::Storage(StorageError::Fault("disk".to_string()));
    assert_eq!(state.find_default_branch(&subject, Err(fault), None), Err(none));
}

#[test]
fn well_formed_references_hold_single_segments() {
    assert!(is_slash_free("hwd1yre8"));
    assert!(is_slash_free(""));
    assert!(!is_slash_free("hwd/1yre8"));
    assert!(!is_slash_free("/"));
    assert!(!is_slash_free("hwd1yre8/"));
    assert!(Reference::head(Urn::new("hwd1yre8"), None, "feature/x").is_well_formed());
    assert!(Reference::rad_self(Urn::new("hwd1yre8"), Some(PeerId::new("hyb79"))).is_well_formed());
    assert!(!Reference::head(Urn::new("hwd/1yre8"), None, "power").is_well_formed());
    assert!(!Reference::head(Urn::new("hwd1yre8"), Some(PeerId::new("hyb/79")), "power")
        .is_well_formed());
    assert!(!Reference::head(Urn::new("a/b"), Some(PeerId::new("hyb79")), "power").is_well_formed());
    // what the test is for: two references that are not well formed share a name
    assert_eq!(
        Reference::head(Urn::new("a"), Some(PeerId::new("b/heads/x/refs/remotes/c")), "y").path(),
        Reference::head(Urn::new("a/refs/remotes/b/heads/x"), Some(PeerId::new("c")), "y").path()
    );
}

#[test]
fn storage_fault_of_either_lookup_is_handed_on() {
    let state = local_state();
    let subject = project(Some("power"), vec![Either::Left(PeerId::new("hyb-one"))]);
    let owners = Reference::head(Urn::new("hwd1yre8"), None, "power");
    let delegates = Reference::head(Urn::new("hwd1yre8"), Some(PeerId::new("hyb-one")), "power");
    let fault = Error::Storage(StorageError::Fault("disk".to_string()));
    let other = Error::Storage(StorageError::Fault("lock".to_string()));

    assert_eq!(
        state.find_default_branch(&subject, Err(fault.clone()), Some(Ok(delegates.clone()))),
        Err(fault.clone())
    );
    assert_eq!(
        state.find_default_branch(&subject, Ok(owners.clone()), Some(Err(fault.clone()))),
        Err(fault.clone())
    );
    assert_eq!(
        state.find_default_branch(&subject, Err(fault.clone()), Some(Err(other.clone()))),
        Err(fault.clone())
    );
    assert_eq!(
        state.find_default_branch(
            &subject,
            Err(Error::MissingRef { reference: owners }),
            Some(Err(other.clone()))
        ),
        Err(other)
    );
    assert_eq!(
        state.find_default_branch(&subject, Err(fault.clone()), None),
        Err(fault)
    );
}
