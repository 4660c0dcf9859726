use coco::create::Create;
use coco::create::OwnerPlan;
use coco::create::PersonDraft;
use coco::create::ProjectDraft;
use coco::error::stored;
use coco::error::Error;
use coco::error::StorageError;
use coco::ident::PeerId;
use coco::ident::Urn;
use coco::identity::Person;
use coco::identity::Project;
use coco::identity::SomeIdentity;
use coco::state::State;
use either::Either;

/// An identity storage in memory. A document's identifier follows from what
/// the document says, so the same document cannot be stored twice.
struct Store {
    documents: Vec<SomeIdentity>,
    owner: Option<Urn>,
}

impl Store {
    fn new() -> Store {
        Store { documents: vec![], owner: None }
    }

    fn holds(&self, urn: &Urn) -> bool {
        self.documents.iter().any(|document| match document {
            SomeIdentity::Person(person) => person.urn == *urn,
            SomeIdentity::Project(project) => project.urn == *urn,
        })
    }

    fn create_person(&mut self, draft: PersonDraft) -> Result<Person, StorageError> {
        let keys: Vec<&str> = draft.keys.iter().map(|key| key.as_str()).collect();
        let urn = Urn::new(&format!("person:{}:{}", draft.name, keys.join(",")));
        if self.holds(&urn) {
            return Err(StorageError::AlreadyExists(urn));
        }
        let person = Person { urn, name: draft.name, keys: draft.keys };
        self.documents.push(SomeIdentity::Person(person.clone()));
        Ok(person)
    }

    fn create_project(&mut self, draft: ProjectDraft) -> Result<Project, StorageError> {
        let urn = Urn::new(&format!("project:{}:{:?}", draft.name, draft.delegations));
        if self.holds(&urn) {
            return Err(StorageError::AlreadyExists(urn));
        }
        let project = Project {
            urn,
            name: draft.name,
            description: draft.description,
            default_branch: draft.default_branch,
            delegations: draft.delegations,
        };
        self.documents.push(SomeIdentity::Project(project.clone()));
        Ok(project)
    }

    fn get_project(&self, urn: &Urn) -> Option<Project> {
        self.documents.iter().find_map(|document| match document {
            SomeIdentity::Project(project) if project.urn == *urn => Some(project.clone()),
            _ => None,
        })
    }

    fn default_identity(&self) -> Option<Person> {
        let urn = self.owner.as_ref()?;
        self.documents.iter().find_map(|document| match document {
            SomeIdentity::Person(person) if person.urn == *urn => Some(person.clone()),
            _ => None,
        })
    }

    fn entries(&self) -> Vec<Result<SomeIdentity, StorageError>> {
        self.documents.iter().cloned().map(Ok).collect()
    }
}

fn state() -> State {
    State::new(PeerId::new("hyn-local"), PeerId::new("hyn-key"))
}

fn init_user(state: &State, store: &mut Store, name: &str) -> Result<Person, Error> {
    let draft = state.init_user(name.to_string());
    stored(store.create_person(draft))
}

fn init_owner(state: &State, store: &mut Store, name: &str) -> Result<Person, Error> {
    match state.init_owner(store.default_identity(), name.to_string()) {
        OwnerPlan::Keep(owner) => Ok(owner),
        OwnerPlan::Create(draft) => {
            let person = stored(store.create_person(draft))?;
            store.owner = Some(person.urn.clone());
            Ok(person)
        }
    }
}

fn init_project(state: &State, store: &mut Store, create: Create) -> Result<Project, Error> {
    let draft = state.init_project(create);
    stored(store.create_project(draft))
}

fn radicle_project() -> Create {
    Create {
        name: "radicalise".to_string(),
        description: "the people".to_string(),
        default_branch: "power".to_string(),
    }
}

fn named(name: &str) -> Create {
    Create {
        name: name.to_string(),
        description: "rad git tricks".to_string(),
        default_branch: "dope".to_string(),
    }
}

#[test]
fn can_create_user() {
    let state = state();
    let mut store = Store::new();
    let annie = init_user(&state, &mut store, "annie_are_you_ok?");
    assert!(annie.is_ok());
}

#[test]
fn cannot_create_user_twice() {
    let state = state();
    let mut store = Store::new();
    let user = init_owner(&state, &mut store, "cloudhead").unwrap();
    let err = init_user(&state, &mut store, "cloudhead");

    if let Err(Error::Storage(StorageError::AlreadyExists(urn))) = err {
        assert_eq!(urn, user.urn)
    } else {
        panic!(
            "unexpected error when creating the user a second time: {:?}",
            err
        );
    }
}

#[test]
fn cannot_create_project_twice() {
    let state = state();
    let mut store = Store::new();
    let _user = init_owner(&state, &mut store, "cloudhead").unwrap();
    let project = init_project(&state, &mut store, radicle_project()).unwrap();

    let err = init_project(&state, &mut store, radicle_project());

    if let Err(Error::Storage(StorageError::AlreadyExists(urn))) = err {
        assert_eq!(urn, project.urn)
    } else {
        panic!(
            "unexpected error when creating the project a second time: {:?}",
            err
        );
    }
}

#[test]
fn projects_are_told_from_persons() {
    let state = state();
    let mut store = Store::new();
    let _user = init_owner(&state, &mut store, "cloudhead").unwrap();
    for name in ["monokel", "Monadic", "open source coin", "radicle"] {
        init_project(&state, &mut store, named(name)).unwrap();
    }
    let _kalt = init_user(&state, &mut store, "kalt").unwrap();

    let projects = state.list_projects(store.entries()).unwrap();
    let mut project_names = projects
        .into_iter()
        .map(|project| project.name)
        .collect::<Vec<_>>();
    project_names.sort();

    assert_eq!(
        project_names,
        vec!["Monadic", "monokel", "open source coin", "radicle"]
    );
    assert!(!project_names.contains(&"kalt".to_string()));
}

#[test]
fn list_users() {
    let state = state();
    let mut store = Store::new();
    init_user(&state, &mut store, "cloudhead").unwrap();
    init_user(&state, &mut store, "kalt").unwrap();

    let users = state.list_users(store.entries()).unwrap();
    let mut user_handles = users
        .into_iter()
        .map(|user| user.name)
        .collect::<Vec<_>>();
    user_handles.sort();

    assert_eq!(user_handles, vec!["cloudhead", "kalt"],);
}

fn person(name: &str) -> Person {
    Person { urn: Urn::new(name), name: name.to_string(), keys: vec![] }
}

fn project(name: &str) -> Project {
    Project {
        urn: Urn::new(name),
        name: name.to_string(),
        description: None,
        default_branch: None,
        delegations: vec![],
    }
}

#[test]
fn listing_keeps_the_order_of_the_store() {
    let state = state();
    let entries = vec![
        Ok(SomeIdentity::Project(project("b"))),
        Ok(SomeIdentity::Person(person("z"))),
        Ok(SomeIdentity::Project(project("a"))),
        Ok(SomeIdentity::Person(person("y"))),
    ];
    assert_eq!(state.list_projects(entries.clone()), Ok(vec![project("b"), project("a")]));
    assert_eq!(state.list_users(entries), Ok(vec![person("z"), person("y")]));
    assert_eq!(state.list_projects(vec![]), Ok(vec![]));
    assert_eq!(state.list_users(vec![]), Ok(vec![]));
}

#[test]
fn unreadable_entry_fails_the_listing() {
    let state = state();
    let first = StorageError::Fault("cannot read fakie".to_string());
    let second = StorageError::AlreadyExists(Urn::new("q"));
    let entries = vec![
        Ok(SomeIdentity::Project(project("b"))),
        Ok(SomeIdentity::Person(person("z"))),
        Err(first.clone()),
        Ok(SomeIdentity::Project(project("a"))),
        Err(second.clone()),
    ];
    assert_eq!(state.list_projects(entries.clone()), Err(Error::Storage(first.clone())));
    assert_eq!(state.list_users(entries), Err(Error::Storage(first)));

    let only = vec![Err(second.clone())];
    assert_eq!(state.list_projects(only.clone()), Err(Error::Storage(second.clone())));
    assert_eq!(state.list_users(only), Err(Error::Storage(second.clone())));

    let last = vec![Ok(SomeIdentity::Person(person("z"))), Err(second.clone())];
    assert_eq!(state.list_users(last), Err(Error::Storage(second)));
}

#[test]
fn new_person_has_the_signers_key_alone() {
    let draft = state().init_user("cloudhead".to_string());
    assert_eq!(
        draft,
        PersonDraft { name: "cloudhead".to_string(), keys: vec![PeerId::new("hyn-key")] }
    );
}

#[test]
fn new_project_says_what_was_asked_for() {
    let draft = state().init_project(radicle_project());
    assert_eq!(
        draft,
        ProjectDraft {
            name: "radicalise".to_string(),
            description: Some("the people".to_string()),
            default_branch: Some("power".to_string()),
            delegations: vec![Either::Left(PeerId::new("hyn-key"))],
        }
    );
}

#[test]
fn created_project_is_fetched_as_it_was_made() {
    let state = state();
    let mut store = Store::new();
    let created = init_project(&state, &mut store, radicle_project()).unwrap();
    let fetched = store.get_project(&created.urn).unwrap();
    assert_eq!(fetched.name, "radicalise");
    assert_eq!(fetched.description, Some("the people".to_string()));
    assert_eq!(fetched.default_branch, Some("power".to_string()));
    assert_eq!(fetched.delegations, vec![Either::Left(PeerId::new("hyn-key"))]);
    assert_eq!(fetched, created);
    assert_eq!(store.get_project(&Urn::new("nothing")), None);
}

#[test]
fn existing_owner_is_kept() {
    let state = state();
    let owner = Person {
        urn: Urn::new("urn-of-cloudhead"),
        name: "cloudhead".to_string(),
        keys: vec![PeerId::new("hyn-old-key")],
    };
    assert_eq!(
        state.init_owner(Some(owner.clone()), "somebody else".to_string()),
        OwnerPlan::Keep(owner)
    );
    assert_eq!(
        state.init_owner(None, "cloudhead".to_string()),
        OwnerPlan::Create(PersonDraft {
            name: "cloudhead".to_string(),
            keys: vec![PeerId::new("hyn-key")],
        })
    );
}

#[test]
fn owner_is_created_once() {
    let state = state();
    let mut store = Store::new();
    let first = init_owner(&state, &mut store, "cloudhead").unwrap();
    let second = init_owner(&state, &mut store, "kalt").unwrap();
    assert_eq!(first, second);
    assert_eq!(store.documents.len(), 1);
}

#[test]
fn storage_failure_is_handed_on_as_it_came() {
    let exists = StorageError::AlreadyExists(Urn::new("hwd1yre8"));
    assert_eq!(
        stored::<()>(Err(exists.clone())),
        Err(Error::Storage(exists.clone()))
    );
    assert_eq!(Error::from(exists.clone()), Error::Storage(exists));
    let fault = StorageError::Fault("disk".to_string());
    assert_eq!(stored::<u8>(Err(fault.clone())), Err(Error::Storage(fault)));
    assert_eq!(stored(Ok(7)), Ok(7));
}

#[test]
fn missing_description_is_the_empty_text() {
    let mut project = Project {
        urn: Urn::new("hwd1yre8"),
        name: "radicalise".to_string(),
        description: Some("the people".to_string()),
        default_branch: None,
        delegations: vec![],
    };
    assert_eq!(project.description_or_default(), "the people");
    project.description = None;
    assert_eq!(project.description_or_default(), "");
}
