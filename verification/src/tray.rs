//! What the tray shows and offers.

use vstd::prelude::*;

use crate::text;

verus! {

/// How the tray names a state, which is unknown where it cannot be read.
pub open spec fn state_label(state: Option<Seq<char>>) -> Seq<char> {
    match state {
        None => "состояние неизвестно"@,
        Some(state) => if state == "connected"@ {
            "подключено"@
        } else if state == "connecting"@ {
            "подключение"@
        } else if state == "disconnecting"@ {
            "отключение"@
        } else if state == "error"@ {
            "ошибка"@
        } else {
            "отключено"@
        },
    }
}

/// The title of the tray.
pub fn title(state: Option<&str>) -> (title: String)
    ensures
        title@ == "MouseVPN — "@ + state_label(
            match state {
                Some(state) => Some(state@),
                None => None,
            },
        ),
{
    let mut title = text::owned("MouseVPN — ");
    let label = match state {
        None => "состояние неизвестно",
        Some(state) => if text::same(state, "connected") {
            "подключено"
        } else if text::same(state, "connecting") {
            "подключение"
        } else if text::same(state, "disconnecting") {
            "отключение"
        } else if text::same(state, "error") {
            "ошибка"
        } else {
            "отключено"
        },
    };
    title.append(label);
    title
}

/// An entry of the menu.
#[derive(Clone, Copy, Debug, PartialEq, Eq, Structural)]
pub enum MenuAction {
    Show,
    Toggle,
    Quit,
}

/// What the entry with the identifier `id` does.
pub fn menu_action(id: &str) -> (action: Option<MenuAction>)
    ensures
        action == (if id@ == "show"@ {
            Some(MenuAction::Show)
        } else if id@ == "toggle"@ {
            Some(MenuAction::Toggle)
        } else if id@ == "quit"@ {
            Some(MenuAction::Quit)
        } else {
            None
        }),
{
    if text::same(id, "show") {
        Some(MenuAction::Show)
    } else if text::same(id, "toggle") {
        Some(MenuAction::Toggle)
    } else if text::same(id, "quit") {
        Some(MenuAction::Quit)
    } else {
        None
    }
}

// The icon

/// An icon in the form that the tray takes: four bytes per pixel, alpha first.
#[derive(Debug)]
pub struct Icon {
    pub width: i32,
    pub height: i32,
    pub data: Vec<u8>,
}

/// The width, the height and the pixels, as red, green, blue and alpha, of the
/// image that a PNG file encodes, as `image::load_from_memory_with_format`
/// decodes it.
pub uninterp spec fn png_pixels(file: Seq<u8>) -> Option<(u32, u32, Seq<u8>)>;

/// Calls `image::load_from_memory_with_format` for PNG and takes the image
/// apart with `into_rgba8`, `dimensions` and `into_raw`. What an image decodes
/// to is a matter of the PNG format and not stated.
#[verifier::external_body]
fn decode_png(file: &[u8]) -> (image: Option<(u32, u32, Vec<u8>)>)
    ensures
        match png_pixels(file@) {
            Some(pixels) => image matches Some(i) && i.0 == pixels.0 && i.1 == pixels.1 && i.2@
                == pixels.2,
            None => image is None,
        },
{
    let decoded = image::load_from_memory_with_format(file, image::ImageFormat::Png).ok()?;
    let pixels = decoded.into_rgba8();
    let (width, height) = pixels.dimensions();
    Some((width, height, pixels.into_raw()))
}

/// The bytes with the alpha of every whole pixel moved before its colors.
pub open spec fn alpha_first(data: Seq<u8>) -> Seq<u8> {
    Seq::new(
        data.len(),
        |i: int|
            if i - i % 4 + 4 > data.len() {
                data[i]
            } else if i % 4 == 0 {
                data[i + 3]
            } else {
                data[i - 1]
            },
    )
}

/// The icon of the given size made of pixels in red, green, blue and alpha.
pub fn icon_of_pixels(width: u32, height: u32, pixels: Vec<u8>) -> (icon: Icon)
    requires
        width <= i32::MAX,
        height <= i32::MAX,
    ensures
        icon.width == width,
        icon.height == height,
        icon.data@ == alpha_first(pixels@),
{
    let ghost original = pixels@;
    let mut data = pixels;
    let mut start: usize = 0;
    while data.len() - start >= 4
        invariant
            start <= data@.len(),
            start % 4 == 0,
            data@.len() == original.len(),
            forall|i: int| 0 <= i < start ==> #[trigger] data@[i] == alpha_first(original)[i],
            forall|i: int| start <= i < data@.len() ==> #[trigger] data@[i] == original[i],
        decreases data@.len() - start,
    {
        let red = data[start];
        let green = data[start + 1];
        let blue = data[start + 2];
        let alpha = data[start + 3];
        data.set(start, alpha);
        data.set(start + 1, red);
        data.set(start + 2, green);
        data.set(start + 3, blue);
        start = start + 4;
    }
    assert(data@ =~= alpha_first(original));
    Icon { width: width as i32, height: height as i32, data }
}

/// The icon that a PNG file encodes, if it encodes one and its size can be
/// told to the tray.
pub fn icon(file: &[u8]) -> (icon: Option<Icon>)
    ensures
        match png_pixels(file@) {
            Some(pixels) => if pixels.0 <= i32::MAX && pixels.1 <= i32::MAX {
                icon matches Some(i) && i.width == pixels.0 && i.height == pixels.1 && i.data@
                    == alpha_first(pixels.2)
            } else {
                icon is None
            },
            None => icon is None,
        },
{
    match decode_png(file) {
        Some((width, height, pixels)) => if width <= i32::MAX as u32 && height <= i32::MAX as u32 {
            Some(icon_of_pixels(width, height, pixels))
        } else {
            None
        },
        None => None,
    }
}

/// The alpha of a pixel comes first and its colors follow in their order; what
/// is not a whole pixel stays as it is.
pub proof fn pixels_put_their_alpha_first(data: Seq<u8>, pixel: int)
    requires
        0 <= pixel,
        4 * pixel + 4 <= data.len(),
    ensures
        ({
            let result = alpha_first(data);
            let at = 4 * pixel;
            &&& result.len() == data.len()
            &&& result[at] == data[at + 3]
            &&& result[at + 1] == data[at]
            &&& result[at + 2] == data[at + 1]
            &&& result[at + 3] == data[at + 2]
            &&& forall|i: int|
                data.len() - data.len() % 4 <= i < data.len() ==> #[trigger] result[i] == data[i]
        }),
{
}

/// The tray names every state, and calls off what it does not know.
pub proof fn the_tray_names_every_state(state: Seq<char>)
    ensures
        state_label(None) == "состояние неизвестно"@,
        state_label(Some("connected"@)) == "подключено"@,
        state_label(Some("connecting"@)) == "подключение"@,
        state_label(Some("disconnecting"@)) == "отключение"@,
        state_label(Some("error"@)) == "ошибка"@,
        state_label(Some("disconnected"@)) == "отключено"@,
{
    reveal_strlit("connected");
    reveal_strlit("connecting");
    reveal_strlit("disconnecting");
    reveal_strlit("disconnected");
    reveal_strlit("error");
    assert("connected"@.len() == 9);
    assert("connecting"@.len() == 10);
    assert("disconnecting"@.len() == 13);
    assert("disconnected"@.len() == 12);
    assert("error"@.len() == 5);
}

/// Each entry of the menu does what it is called.
pub proof fn menu_entries_do_what_they_are_called(id: &str, action: Option<MenuAction>)
    requires
        call_ensures(menu_action, (id,), action),
    ensures
        action == Some(MenuAction::Show) <==> id@ == "show"@,
        action == Some(MenuAction::Toggle) <==> id@ == "toggle"@,
        action == Some(MenuAction::Quit) <==> id@ == "quit"@,
{
    reveal_strlit("show");
    reveal_strlit("toggle");
    reveal_strlit("quit");
    assert("show"@[0] == 's');
    assert("toggle"@.len() == 6);
    assert("quit"@[0] == 'q');
    assert("show"@.len() == 4 && "quit"@.len() == 4);
}

} // verus!
