use hephaestus::line::render_line;
use hephaestus::LogLevel;

// One test only: the colour override is global to the process.
#[test]
fn colouring_follows_the_override() {
    colored::control::set_override(true);
    assert_eq!(
        render_line("S", LogLevel::Info, "m"),
        "\x1b[36mS\x1b[0m\x1b[36mINFO \x1b[0m \x1b[37mm\x1b[0m\n"
    );
    assert_eq!(
        render_line("S", LogLevel::Trace, "m"),
        "\x1b[36mS\x1b[0mTRACE \x1b[37mm\x1b[0m\n"
    );
    assert_eq!(
        render_line("", LogLevel::Error, "a\x1b[0mb"),
        "\x1b[36m\x1b[0m\x1b[31mERROR\x1b[0m \x1b[37ma\x1b[0m\x1b[37mb\x1b[0m\n"
    );
    colored::control::set_override(false);
    assert_eq!(render_line("S ", LogLevel::Debug, "m"), "S DEBUG m\n");
}
