use hookpatch::jobs::{
    calc_build_reason, dep_file_paths, worker_count, BuildReason, FileStamp, Job, JobKind,
};
use hookpatch::worker_pool::{
    on_message, on_task_result, pool_result, MessageKind, Outcome, TaskResult, WorkerAction,
};

#[test]
fn kinds_by_extension() {
    assert_eq!(JobKind::from_ext("c"), Some(JobKind::C));
    assert_eq!(JobKind::from_ext("cpp"), Some(JobKind::CPP));
    assert_eq!(JobKind::from_ext("s"), Some(JobKind::ASM));
    assert_eq!(JobKind::from_ext("C"), Some(JobKind::C));
    assert_eq!(JobKind::from_ext("CpP"), Some(JobKind::CPP));
    assert_eq!(JobKind::from_ext("S"), Some(JobKind::ASM));
    assert_eq!(JobKind::from_ext(""), None);
    assert_eq!(JobKind::from_ext("h"), None);
    assert_eq!(JobKind::from_ext("cc"), None);
    assert_eq!(JobKind::from_ext(".c"), None);
    assert_eq!(JobKind::from_ext("c "), None);
}

#[test]
fn compilers_by_kind() {
    assert_eq!(JobKind::C.compiler(), "arm-none-eabi-gcc");
    assert_eq!(JobKind::CPP.compiler(), "arm-none-eabi-g++");
    assert_eq!(JobKind::ASM.compiler(), "arm-none-eabi-gcc");
}

const T1: FileStamp = FileStamp::Modified(1_000);
const T2: FileStamp = FileStamp::Modified(2_000);
const T3: FileStamp = FileStamp::Modified(3_000);

#[test]
fn build_reasons() {
    let none: Vec<FileStamp> = Vec::new();
    // Up to date.
    assert_eq!(calc_build_reason(T1, T2, Some(&vec![T1, T1, T1])), None);
    assert_eq!(calc_build_reason(T2, T2, Some(&vec![T2])), None);
    assert_eq!(calc_build_reason(T1, T2, Some(&none)), None);
    // The source and the object.
    assert_eq!(
        calc_build_reason(FileStamp::Missing, FileStamp::Missing, None),
        Some(BuildReason::SrcMissing)
    );
    assert_eq!(
        calc_build_reason(T2, FileStamp::Missing, Some(&none)),
        Some(BuildReason::ObjMissing)
    );
    assert_eq!(
        calc_build_reason(FileStamp::Untimed, FileStamp::Missing, Some(&none)),
        Some(BuildReason::ObjMissing)
    );
    assert_eq!(
        calc_build_reason(FileStamp::Untimed, FileStamp::Untimed, Some(&none)),
        Some(BuildReason::SrcMissing)
    );
    assert_eq!(
        calc_build_reason(FileStamp::Untimed, T1, Some(&none)),
        Some(BuildReason::SrcMissing)
    );
    assert_eq!(
        calc_build_reason(T1, FileStamp::Untimed, Some(&none)),
        Some(BuildReason::ObjMissing)
    );
    assert_eq!(
        calc_build_reason(T2, T1, Some(&none)),
        Some(BuildReason::SrcNewer)
    );
    assert_eq!(calc_build_reason(T2, T1, None), Some(BuildReason::SrcNewer));
    // The dependencies.
    assert_eq!(
        calc_build_reason(T1, T2, None),
        Some(BuildReason::NoDependencyFile)
    );
    assert_eq!(
        calc_build_reason(T1, T2, Some(&vec![T1, T1, T3])),
        Some(BuildReason::DependencyNewer)
    );
    assert_eq!(
        calc_build_reason(T1, T2, Some(&vec![T1, FileStamp::Missing, T3])),
        Some(BuildReason::DependencyMissing)
    );
    assert_eq!(
        calc_build_reason(T1, T2, Some(&vec![T3, FileStamp::Missing])),
        Some(BuildReason::DependencyNewer)
    );
    assert_eq!(
        calc_build_reason(T1, T2, Some(&vec![FileStamp::Untimed])),
        Some(BuildReason::DependencyMissing)
    );
}

#[test]
fn jobs_and_their_reasons() {
    let mut job = Job::new(
        JobKind::C,
        "src/a.c".to_string(),
        "obj/a.c.o".to_string(),
        "dep/a.c.d".to_string(),
    );
    assert_eq!(job.build_reason, Some(BuildReason::Forced));
    assert!(job.build_required());
    job.update_build_reason(T1, T2, Some(&vec![T1, T1, T1]));
    assert_eq!(
        job,
        Job {
            kind: JobKind::C,
            src_path: "src/a.c".to_string(),
            obj_path: "obj/a.c.o".to_string(),
            dep_path: "dep/a.c.d".to_string(),
            build_reason: None,
        }
    );
    assert!(!job.build_required());
    job.update_build_reason(T2, FileStamp::Missing, None);
    assert_eq!(job.build_reason, Some(BuildReason::ObjMissing));
    job.update_build_reason(T2, T1, Some(&Vec::new()));
    assert_eq!(job.build_reason, Some(BuildReason::SrcNewer));
    job.update_build_reason(T1, T2, Some(&vec![T1, T1, T3]));
    assert_eq!(job.build_reason, Some(BuildReason::DependencyNewer));
    assert_eq!(job.clone(), job);
    assert!(job.build_required());
}

#[test]
fn dependency_lists() {
    assert_eq!(
        dep_file_paths("src/a.c: src/a1.h \\\n src/a2.h \\\n src/a3.h"),
        vec!["src/a1.h", "src/a2.h", "src/a3.h"]
    );
    assert_eq!(
        dep_file_paths("build/obj/a.o: source/a.c include/x.h \\\r\n\tinclude/y.h\r\n\r\ninclude/x.h:\n"),
        vec!["source/a.c", "include/x.h", "include/y.h"]
    );
    assert_eq!(dep_file_paths(""), Vec::<String>::new());
    assert_eq!(dep_file_paths(" \n\t\n"), Vec::<String>::new());
    assert_eq!(dep_file_paths("a: \\"), Vec::<String>::new());
    assert_eq!(dep_file_paths("a"), vec!["a"]);
    // Only a lone backslash continues the line; a colon counts at the end.
    assert_eq!(dep_file_paths("\\\\ a\\ b:c :"), vec!["\\\\", "a\\", "b:c"]);
    assert_eq!(dep_file_paths("x\u{c}y\u{b}z"), vec!["x", "y\u{b}z"]);
    // White space beyond ASCII does not part words, but does not belong to
    // them at their ends either.
    assert_eq!(dep_file_paths("a\u{a0}b \u{a0}c\u{a0} d"), vec!["a\u{a0}b", "c", "d"]);
    assert_eq!(dep_file_paths("\u{a0} a"), vec!["a"]);
    assert_eq!(dep_file_paths("a \u{a0} b"), vec!["a", "", "b"]);
    assert_eq!(dep_file_paths("a \u{a0}: b"), vec!["a", "b"]);
}

#[test]
fn compiler_arguments() {
    let job = Job::new(
        JobKind::CPP,
        "src/main.cpp".to_string(),
        "build/obj/main.cpp.o".to_string(),
        "build/dep/main.cpp.d".to_string(),
    );
    assert_eq!(
        job.compiler_arguments(&vec!["-Wall", "-O3"]),
        vec![
            "-MMD",
            "-MF",
            "build/dep/main.cpp.d",
            "-Wall",
            "-O3",
            "-D__mw_symbol_safe_filename=ONZGGL3NMFUW4LTDOBYA",
            "-c",
            "src/main.cpp",
            "-o",
            "build/obj/main.cpp.o",
        ]
    );
    assert_eq!(job.compiler_arguments(&Vec::new()).len(), 8);
}

#[test]
fn workers() {
    assert_eq!(worker_count(8, 3), 3);
    assert_eq!(worker_count(2, 3), 2);
    assert_eq!(worker_count(4, 4), 4);
    assert_eq!(worker_count(4, 0), 0);
    assert_eq!(worker_count(0, 4), 0);
}

#[test]
fn worker_decisions() {
    assert_eq!(on_message(false, MessageKind::Task), WorkerAction::RunTask);
    assert_eq!(on_message(false, MessageKind::Poke), WorkerAction::Stop);
    assert_eq!(on_message(true, MessageKind::Task), WorkerAction::Stop);
    assert_eq!(on_message(true, MessageKind::Poke), WorkerAction::Stop);
    assert_eq!(
        on_task_result(TaskResult::Success, 4),
        Outcome {
            terminate: false,
            pokes: 0,
            stop: false
        }
    );
    assert_eq!(
        on_task_result(TaskResult::Terminate, 4),
        Outcome {
            terminate: true,
            pokes: 3,
            stop: true
        }
    );
    assert_eq!(on_task_result(TaskResult::Terminate, 1).pokes, 0);
    assert_eq!(on_task_result(TaskResult::Terminate, 0).pokes, 0);
    assert_eq!(pool_result(false), TaskResult::Success);
    assert_eq!(pool_result(true), TaskResult::Terminate);
}
