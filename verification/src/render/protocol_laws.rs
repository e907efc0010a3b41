//! Which graphics a terminal takes, whatever its environment holds.

use vstd::prelude::*;

use image::DynamicImage;

use crate::render::inline_image::{ImageProtocol, MAX_INLINE_ROWS};

verus! {

/// A variable has the value that it is first given; it has none where it is given none.
pub proof fn law_variable(vars: Seq<(&str, &str)>, key: Seq<char>, i: int)
    requires
        0 <= i <= vars.len(),
        forall|k: int| 0 <= k < i ==> (#[trigger] vars[k]).0@ != key,
        i < vars.len() ==> vars[i].0@ == key,
    ensures
        i < vars.len() ==> crate::render::inline_image::variable(vars, key) == Some(vars[i].1@),
        i == vars.len() ==> crate::render::inline_image::variable(vars, key) is None,
    decreases i,
{
    if i > 0 {
        let rest = vars.drop_first();
        assert(vars[0].0@ != key);
        assert forall|k: int| 0 <= k < i - 1 implies (#[trigger] rest[k]).0@ != key by {
            assert(rest[k] == vars[k + 1]);
        }
        law_variable(rest, key, i - 1);
    }
}

/// A terminal that names itself by a variable of its own takes its own protocol, outside a
/// multiplexer: Kitty's goes before that of iTerm.
pub proof fn law_named_terminal(vars: Seq<(&str, &str)>)
    requires
        !crate::render::inline_image::is_set(vars, "TMUX"@),
        crate::render::inline_image::variable(vars, "TERM"@) is None,
    ensures
        crate::render::inline_image::is_set(vars, "KITTY_WINDOW_ID"@)
            || crate::render::inline_image::is_set(vars, "GHOSTTY_RESOURCES_DIR"@)
            ==> crate::render::inline_image::protocol_of(vars) == ImageProtocol::Kitty,
        crate::render::inline_image::protocol_of(vars) != ImageProtocol::Kitty && (
        crate::render::inline_image::is_set(vars, "ITERM_SESSION_ID"@)
            || crate::render::inline_image::is_set(vars, "WEZTERM_EXECUTABLE"@))
            ==> crate::render::inline_image::protocol_of(vars) == ImageProtocol::ITerm2,
{
    reveal_strlit("screen");
    reveal_strlit("tmux");
}

/// A terminal that tells nothing of itself takes no graphics.
pub proof fn law_silent_terminal(vars: Seq<(&str, &str)>)
    requires
        vars.len() == 0,
    ensures
        crate::render::inline_image::protocol_of(vars) == ImageProtocol::NoGraphics,
{
    reveal_strlit("screen");
    reveal_strlit("tmux");
    reveal_strlit("kitty");
    reveal_strlit("ghostty");
    reveal_strlit("iterm.app");
    reveal_strlit("wezterm");
    reveal_strlit("sixel");
    reveal_strlit("foot");
    reveal_strlit("mlterm");
    reveal_strlit("yaft");
}

/// An image takes at least one row and no more than an inline image may.
pub proof fn law_rows_of_image(image: DynamicImage, width: u16)
    ensures
        1 <= crate::render::inline_image::rows_at(image, width) <= MAX_INLINE_ROWS,
{
}

} // verus!
