use coconutpak::compile_status::{AtomicCompileStatus, BuildId, CompileOutput, CompileStatus, CompileTask, PendingCompileTask};
use coconutpak::registry_config;
use coconutpak::server_config;
use std::cmp::Ordering;

const ALL: [CompileStatus; 5] = [
    CompileStatus::Rejected,
    CompileStatus::Queued,
    CompileStatus::Running,
    CompileStatus::Succeeded,
    CompileStatus::Failed,
];

#[test]
fn a_status_is_held_and_given_back() {
    for s in ALL {
        let a = AtomicCompileStatus::from_compile_status(s);
        assert_eq!(a.as_compile_status(), s);
        assert_eq!(a.clone().as_compile_status(), s);
    }
}

#[test]
fn statuses_compare_by_their_order() {
    for (i, s) in ALL.iter().enumerate() {
        for (j, t) in ALL.iter().enumerate() {
            let a = AtomicCompileStatus::from_compile_status(*s);
            let b = AtomicCompileStatus::from_compile_status(*t);
            assert_eq!(a.eq(&b), i == j);
            assert_eq!(a.partial_cmp(&b), Some(i.cmp(&j)));
        }
    }
}

#[test]
fn build_ids_give_their_native_bytes() {
    let id = BuildId { id: 0x0102_0304_0506_0708 };
    assert_eq!(id.bytes(), 0x0102_0304_0506_0708u64.to_ne_bytes().to_vec());
    assert_eq!(BuildId { id: 0 }.bytes(), vec![0; 8]);
}

#[test]
fn pending_tasks_are_ordered_by_build() {
    let t = |id: u64, b: u8| PendingCompileTask { build_id: BuildId { id }, bytes_snap: vec![b] };
    assert!(t(1, 0).eq(&t(1, 9)));
    assert!(!t(1, 0).eq(&t(2, 0)));
    assert_eq!(t(1, 0).partial_cmp(&t(2, 0)), Some(Ordering::Less));
    assert_eq!(t(2, 0).partial_cmp(&t(2, 5)), Some(Ordering::Equal));
    assert_eq!(t(3, 0).partial_cmp(&t(2, 0)), Some(Ordering::Greater));
}

#[test]
fn tasks_hold_their_bytes() {
    let mut t = CompileTask::new(vec![1, 2]);
    assert_eq!(t.data(), &vec![1, 2]);
    t.extend(&[3, 4]);
    assert_eq!(t.data(), &vec![1, 2, 3, 4]);
    t.extend(&[]);
    assert_eq!(t.data().len(), 4);
    let o = CompileOutput::new(vec![9]);
    assert_eq!(o.data(), &vec![9]);
}

#[test]
fn server_defaults_are_as_documented() {
    assert_eq!(server_config::default_port(), 3160);
    assert!(!server_config::default_kkb_login());
    assert_eq!(server_config::default_static_serve_location(), "static");
    assert_eq!(server_config::default_compile_target_directory(), "compile");
    assert_eq!(server_config::default_core_threads(), 2);
    assert_eq!(server_config::default_max_threads(), 4);
    assert_eq!(server_config::default_wtsa(), 1000);
    assert_eq!(server_config::default_mpts(), 60);
    assert_eq!(server_config::default_compiler_location(), "coconutpak");
    assert_eq!(server_config::default_sled_store_path(), "sled");
    assert_eq!(registry_config::default_port(), 8000);
    assert_eq!(registry_config::default_static_serve_location(), "static");
    assert_eq!(registry_config::default_compile_target_directory(), "compile");
}

#[test]
fn a_stored_status_is_read_back() {
    let mut a = AtomicCompileStatus::from_compile_status(CompileStatus::Queued);
    for s in ALL {
        a.store(s);
        assert_eq!(a.as_compile_status(), s);
        assert_eq!(a.clone().as_compile_status(), s);
    }
}

#[test]
fn statuses_are_ordered_as_listed() {
    assert!(CompileStatus::Rejected < CompileStatus::Queued);
    assert!(CompileStatus::Succeeded < CompileStatus::Failed);
    let mut all = ALL;
    all.reverse();
    all.sort();
    assert_eq!(all, ALL);
}
