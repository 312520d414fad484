use drpc::detectables::{DetectableEntry, DetectableExecutable};
use drpc::process::{
    base_lower, match_index, match_named, match_process, names_match, strip_ext, ProcessInfo,
};

fn det(name: &str, exe: &str, is_launcher: bool) -> DetectableEntry {
    DetectableEntry {
        id: None,
        name: name.into(),
        executables: vec![DetectableExecutable {
            name: exe.into(),
            is_launcher,
        }],
    }
}

#[test]
fn match_by_exe_basename() {
    let list = vec![det("CoolGame", "coolgame", false)];
    let p = ProcessInfo {
        pid: 1,
        exe: "/usr/bin/coolgame".into(),
        cmdline: "coolgame".into(),
    };
    let m = match_process(&p, &list);
    assert!(m.is_some());
    assert_eq!(m.unwrap().name, "CoolGame");
}

#[test]
fn launcher_is_skipped() {
    let list = vec![det("Launcher", "launcher", true)];
    let p = ProcessInfo {
        pid: 2,
        exe: "/opt/launcher".into(),
        cmdline: "launcher".into(),
    };
    let m = match_process(&p, &list);
    assert!(m.is_none());
}

#[test]
fn java_jar_name_in_cmdline() {
    let list = vec![det("JarGame", "JarGame.jar", false)];
    let p = ProcessInfo {
        pid: 3,
        exe: "/usr/bin/java".into(),
        cmdline: "java -jar /home/user/JarGame.jar".into(),
    };
    let m = match_process(&p, &list);
    assert!(m.is_some());
    assert_eq!(m.unwrap().name, "JarGame");
}

#[test]
fn extension_mismatch_still_matches() {
    let list = vec![det("CoolGame", "coolgame.exe", false)];
    let p = ProcessInfo {
        pid: 4,
        exe: "coolgame".into(),
        cmdline: "coolgame".into(),
    };
    let m = match_process(&p, &list);
    assert!(m.is_some());
    assert_eq!(m.unwrap().name, "CoolGame");
}

#[test]
fn launcher_executable_name_skipped_even_if_detectable_has_other_exes() {
    let list = vec![det("SomeGame", "somegame", false)];
    let p = ProcessInfo {
        pid: 5,
        exe: "steam".into(),
        cmdline: "steam --run-game somegame".into(),
    };
    let m = match_process(&p, &list);
    assert!(m.is_none());
}

#[test]
fn java_process_detectable_name_fallback() {
    let list = vec![det("BlockWorld", "", false)];
    let p = ProcessInfo {
        pid: 6,
        exe: "java".into(),
        cmdline: "java -Xmx2G -cp libs/* com.company.BlockWorldMain".into(),
    };
    let m = match_process(&p, &list);
    assert!(m.is_some());
    assert_eq!(m.unwrap().name, "BlockWorld");
}

#[test]
fn first_matching_entry_wins() {
    let list = vec![
        det("Other", "other", false),
        det("First", "game.exe", false),
        det("Second", "game", false),
    ];
    let p = ProcessInfo {
        pid: 7,
        exe: "/opt/GAME.EXE".into(),
        cmdline: String::new(),
    };
    assert_eq!(match_process(&p, &list).unwrap().name, "First");
}

#[test]
fn java_without_mention_matches_nothing() {
    let list = vec![det("BlockWorld", "blockworld.jar", false)];
    let p = ProcessInfo {
        pid: 8,
        exe: "javaw.exe".into(),
        cmdline: "javaw -jar other.jar".into(),
    };
    assert!(match_process(&p, &list).is_none());
}

#[test]
fn base_name_is_lower_cased_last_component() {
    assert_eq!(base_lower("/usr/bin/CoolGame"), "coolgame");
    assert_eq!(base_lower("Plain.EXE"), "plain.exe");
    assert_eq!(base_lower(""), "");
}

#[test]
fn extension_is_cut_at_the_last_dot() {
    assert_eq!(strip_ext("game.tar.gz"), "game.tar");
    assert_eq!(strip_ext("game"), "game");
    assert_eq!(strip_ext("game."), "game");
    assert_eq!(strip_ext(".hidden"), "");
}

#[test]
fn names_match_with_or_without_extension() {
    assert!(names_match("game", "game"));
    assert!(names_match("game.exe", "game"));
    assert!(names_match("game", "game.bin"));
    assert!(names_match("game.exe", "game.bin"));
    assert!(!names_match("game", "other"));
}

#[test]
fn matching_goes_by_the_names_it_is_given() {
    let list = vec![det("Launcher", "steam", true), det("Game", "game.exe", false), det("Jar", "pack.jar", false)];
    assert_eq!(match_named("game", "", &list), Some(1));
    assert_eq!(match_named("GAME", "", &list), None);
    assert_eq!(match_named("steam", "game", &list), None);
    assert_eq!(match_named("java", "java -jar pack.jar", &list), Some(2));
    assert_eq!(match_named("java", "java -jar game.jar", &list), Some(1));
    assert_eq!(match_named("python", "python pack.jar", &list), None);
    let p = ProcessInfo { pid: 1, exe: "/opt/Game.EXE".into(), cmdline: String::new() };
    assert_eq!(match_index(&p, &list), Some(1));
}
