use music_player::audio::Duration;
use music_player::repl::{choice, command, format_duraton, Command};

fn chars(s: &str) -> Vec<char> {
    s.chars().collect()
}

fn cmd(s: &str) -> Command {
    command(&chars(s))
}

#[test]
fn words() {
    assert_eq!(Command::List, cmd("list"));
    assert_eq!(Command::Prev, cmd("prev"));
    assert_eq!(Command::Next, cmd("next"));
    assert_eq!(Command::Pause, cmd("pause"));
    assert_eq!(Command::Play, cmd("play"));
    assert_eq!(Command::Stop, cmd("stop"));
    assert_eq!(Command::Info, cmd("info"));
    assert_eq!(Command::Queue, cmd("queue"));
}

#[test]
fn commands_with_an_argument() {
    assert_eq!(Command::Jump(3), cmd("j3"));
    assert_eq!(Command::Jump(0), cmd("j000"));
    assert_eq!(Command::Ignored, cmd("j"));
    assert_eq!(Command::Ignored, cmd("j 3"));
    assert_eq!(Command::Ignored, cmd("jump"));
    assert_eq!(Command::Seek(90), cmd(":90"));
    assert_eq!(Command::Seek(u64::MAX), cmd(":18446744073709551615"));
    assert_eq!(Command::Ignored, cmd(":18446744073709551616"));
    assert_eq!(Command::Ignored, cmd(":1.5"));
    assert_eq!(Command::Tempo(chars("1.25")), cmd("t1.25"));
    assert_eq!(Command::Tempo(chars("")), cmd("t"));
    assert_eq!(Command::Tempo(chars("empo")), cmd("tempo"));
}

#[test]
fn anything_else_is_unknown() {
    assert_eq!(Command::Unknown, cmd(""));
    assert_eq!(Command::Unknown, cmd("List"));
    assert_eq!(Command::Unknown, cmd("list "));
    assert_eq!(Command::Unknown, cmd("quit"));
    assert_eq!(Command::Unknown, cmd(" j3"));
}

#[test]
fn choices_from_a_list() {
    assert_eq!(Some(12), choice(&chars("12")));
    assert_eq!(Some(12), choice(&chars("+12")));
    assert_eq!(None, choice(&chars("q")));
    assert_eq!(None, choice(&chars("")));
    assert_eq!(None, choice(&chars("-1")));
}

#[test]
fn times_at_the_prompt() {
    assert_eq!(chars("03:07.0"), format_duraton(&Duration { secs: 187, nanos: 999_999_999 }));
    assert_eq!(chars("00:00.0"), format_duraton(&Duration { secs: 0, nanos: 0 }));
    assert_eq!(chars("100:59.0"), format_duraton(&Duration { secs: 6059, nanos: 1 }));
    assert_eq!(chars("10:10.1"), format_duraton(&Duration { secs: 610, nanos: 1_000_000_000 }));
}
