use aitodo::db::research_service::{
    stage_to_string, string_to_research_stage, string_to_research_status,
};
use aitodo::db::todo_service::{
    i32_to_priority, priority_to_i32, status_to_string, string_to_status,
};
use aitodo::db::{ServiceError, StorageError, ValidationError};
use aitodo::models::research_result::{ResearchStage, ResearchStatus};
use aitodo::models::settings::{AppSettings, Setting, SettingType, UpdateSettingRequest};
use aitodo::models::todo::{TodoPriority, TodoStatus};
use aitodo::models::webview_session::{CreateWebViewSessionRequest, LoginStatus, WebViewSession};

const STATUSES: [TodoStatus; 5] = [
    TodoStatus::Pending,
    TodoStatus::Researching,
    TodoStatus::Review,
    TodoStatus::Done,
    TodoStatus::Archived,
];

#[test]
fn status_names() {
    assert_eq!(TodoStatus::Pending.as_str(), "pending");
    assert_eq!(TodoStatus::Researching.as_str(), "researching");
    assert_eq!(TodoStatus::Review.as_str(), "review");
    assert_eq!(TodoStatus::Done.as_str(), "done");
    assert_eq!(TodoStatus::Archived.as_str(), "archived");
    assert_eq!(status_to_string(&TodoStatus::Review), "review");
    assert_eq!(status_to_string(&TodoStatus::Archived), "archived");
}

#[test]
fn status_round_trip() {
    for status in STATUSES {
        assert_eq!(TodoStatus::from_str(status.as_str()), status);
        assert_eq!(string_to_status(status_to_string(&status)), status);
    }
}

#[test]
fn parse_reads_status_names_only() {
    for status in STATUSES {
        assert_eq!(TodoStatus::parse(status.as_str()), Some(status));
    }
    assert_eq!(TodoStatus::parse("paused"), None);
    assert_eq!(TodoStatus::parse(""), None);
    assert_eq!(TodoStatus::parse("Pending"), None);
    assert_eq!(TodoStatus::parse(" pending"), None);
    assert_eq!(TodoStatus::parse("pendin"), None);
}

#[test]
fn unknown_status_reads_as_pending() {
    assert_eq!(TodoStatus::from_str("paused"), TodoStatus::Pending);
    assert_eq!(TodoStatus::from_str(""), TodoStatus::Pending);
    assert_eq!(TodoStatus::from_str("Done"), TodoStatus::Pending);
    assert_eq!(TodoStatus::from_str("done "), TodoStatus::Pending);
    assert_eq!(string_to_status("REVIEW".to_string()), TodoStatus::Pending);
}

#[test]
fn expected_steps() {
    let allowed = [
        (TodoStatus::Pending, TodoStatus::Researching),
        (TodoStatus::Researching, TodoStatus::Review),
        (TodoStatus::Researching, TodoStatus::Pending),
        (TodoStatus::Review, TodoStatus::Done),
        (TodoStatus::Done, TodoStatus::Archived),
        (TodoStatus::Review, TodoStatus::Archived),
    ];
    for from in STATUSES {
        for to in STATUSES {
            assert_eq!(from.can_become(to), allowed.contains(&(from, to)));
        }
    }
}

#[test]
fn every_status_is_reached_from_pending() {
    let mut reached = vec![TodoStatus::Pending];
    let mut grown = true;
    while grown {
        grown = false;
        for to in STATUSES {
            if !reached.contains(&to) && reached.iter().any(|from| from.can_become(to)) {
                reached.push(to);
                grown = true;
            }
        }
    }
    assert_eq!(reached.len(), 5);
}

#[test]
fn priority_numbers() {
    assert_eq!(priority_to_i32(&TodoPriority::Low), 0);
    assert_eq!(priority_to_i32(&TodoPriority::Medium), 1);
    assert_eq!(priority_to_i32(&TodoPriority::High), 2);
    assert_eq!(i32_to_priority(0), TodoPriority::Low);
    assert_eq!(i32_to_priority(1), TodoPriority::Medium);
    assert_eq!(i32_to_priority(2), TodoPriority::High);
}

#[test]
fn unknown_priority_reads_as_medium() {
    assert_eq!(i32_to_priority(3), TodoPriority::Medium);
    assert_eq!(i32_to_priority(-1), TodoPriority::Medium);
    assert_eq!(i32_to_priority(i32::MAX), TodoPriority::Medium);
    assert_eq!(i32_to_priority(i32::MIN), TodoPriority::Medium);
}

#[test]
fn stage_names_and_round_trip() {
    assert_eq!(stage_to_string(&ResearchStage::Searching), "searching");
    assert_eq!(stage_to_string(&ResearchStage::Analyzing), "analyzing");
    assert_eq!(stage_to_string(&ResearchStage::Synthesizing), "synthesizing");
    assert_eq!(stage_to_string(&ResearchStage::Completed), "completed");
    for stage in [
        ResearchStage::Searching,
        ResearchStage::Analyzing,
        ResearchStage::Synthesizing,
        ResearchStage::Completed,
    ] {
        assert_eq!(string_to_research_stage(stage_to_string(&stage)), stage);
    }
}

#[test]
fn unknown_stage_reads_as_searching() {
    assert_eq!(string_to_research_stage("thinking".to_string()), ResearchStage::Searching);
    assert_eq!(string_to_research_stage(String::new()), ResearchStage::Searching);
    assert_eq!(string_to_research_stage("Completed".to_string()), ResearchStage::Searching);
}

#[test]
fn research_status_names_and_round_trip() {
    let name = aitodo::db::research_service::status_to_string;
    assert_eq!(name(&ResearchStatus::Completed), "completed");
    assert_eq!(name(&ResearchStatus::Failed), "failed");
    assert_eq!(name(&ResearchStatus::Timeout), "timeout");
    for status in [ResearchStatus::Completed, ResearchStatus::Failed, ResearchStatus::Timeout] {
        assert_eq!(string_to_research_status(name(&status)), status);
    }
}

#[test]
fn unknown_research_status_reads_as_failed() {
    assert_eq!(string_to_research_status("done".to_string()), ResearchStatus::Failed);
    assert_eq!(string_to_research_status(String::new()), ResearchStatus::Failed);
    assert_eq!(string_to_research_status("TIMEOUT".to_string()), ResearchStatus::Failed);
}

#[test]
fn error_messages() {
    assert_eq!(
        ServiceError::Validation(ValidationError::EmptyTitle).message(),
        "title must not be empty"
    );
    assert_eq!(ServiceError::Validation(ValidationError::UnknownStatus).message(), "no such status");
    assert_eq!(
        ServiceError::Storage(StorageError::DuplicateKey).message(),
        "a row with this key already exists"
    );
    assert_eq!(
        ServiceError::Storage(StorageError::MissingTodo).message(),
        "the todo does not exist"
    );
    assert_eq!(
        ServiceError::Storage(StorageError::CorruptRow).message(),
        "a stored row is not valid"
    );
}

#[test]
fn default_settings() {
    let settings = AppSettings::default();
    assert_eq!(
        settings,
        AppSettings {
            theme: "system".to_string(),
            stay_on_top: false,
            notification_enabled: true,
            default_service: "chatgpt".to_string(),
            research_queue_enabled: true,
            auto_save_enabled: true,
            compact_mode: false,
        }
    );
    assert_eq!(settings.clone(), settings);
}

#[test]
fn plain_records_hold_what_they_are_given() {
    let setting = Setting {
        key: "theme".to_string(),
        value: "dark".to_string(),
        setting_type: SettingType::String,
        updated_at: 5,
    };
    assert_eq!(setting.setting_type, SettingType::String);
    assert_ne!(SettingType::Number, SettingType::Boolean);
    assert_ne!(SettingType::Json, SettingType::String);
    let change = UpdateSettingRequest { value: "1".to_string(), setting_type: None };
    assert_eq!(change.value, "1");
    let session = WebViewSession {
        id: "s1".to_string(),
        service: "web".to_string(),
        user_data_dir: "/tmp/web".to_string(),
        cookies_file: None,
        last_active: 7,
        is_logged_in: false,
        created_at: 6,
    };
    assert_eq!(session.service, "web");
    let open = CreateWebViewSessionRequest { service: "web".to_string() };
    assert_eq!(open.service, session.service);
    let login = LoginStatus {
        service: "web".to_string(),
        is_logged_in: true,
        last_checked: 8,
        requires_action: Some("confirm".to_string()),
    };
    assert!(login.is_logged_in);
}

#[test]
fn copies_equal_what_they_copy() {
    let setting = Setting {
        key: "theme".to_string(),
        value: "dark".to_string(),
        setting_type: SettingType::Json,
        updated_at: 5,
    };
    assert_eq!(setting.clone(), setting);
    let session = WebViewSession {
        id: "s1".to_string(),
        service: "web".to_string(),
        user_data_dir: "/tmp/web".to_string(),
        cookies_file: Some("cookies".to_string()),
        last_active: 7,
        is_logged_in: true,
        created_at: 6,
    };
    assert_eq!(session.clone(), session);
    let todo = aitodo::models::todo::Todo {
        id: "a".to_string(),
        title: "t".to_string(),
        description: Some("d".to_string()),
        url: None,
        status: TodoStatus::Done,
        priority: TodoPriority::Low,
        preferred_service: Some("web".to_string()),
        created_at: 1,
        updated_at: 2,
        completed_at: Some(3),
    };
    assert_eq!(todo.clone(), todo);
    let both = aitodo::todo::TodoWithResearch { todo, research: None };
    assert_eq!(both.clone(), both);
    let input = aitodo::todo::CreateTodoInput {
        title: "t".to_string(),
        description: None,
        url: Some("u".to_string()),
    };
    let copy = input.clone();
    assert_eq!(copy.title, input.title);
    assert_eq!(copy.description, input.description);
    assert_eq!(copy.url, input.url);
    let change = aitodo::todo::UpdateTodoInput {
        title: None,
        description: Some("d".to_string()),
        url: None,
        status: Some(TodoStatus::Review),
    };
    let copy = change.clone();
    assert_eq!(copy.title, change.title);
    assert_eq!(copy.description, change.description);
    assert_eq!(copy.url, change.url);
    assert_eq!(copy.status, change.status);
}
