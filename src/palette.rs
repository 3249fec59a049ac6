use vstd::prelude::*;

verus! {

/// The five stop colours of a gradient, one RGB triple per stop.
pub type Palette = [[u8; 3]; 5];

/// One colour as red, green and blue channels.
pub type Rgb = [u8; 3];

/// The table of named gradients; any other name gives the grayscale ramp.
pub open spec fn palette_table(name: Seq<char>) -> Seq<Seq<u8>> {
    if name == "cool"@ {
        seq![seq![0u8, 0, 0], seq![60u8, 0, 90], seq![128u8, 238, 255], seq![0u8, 100, 200], seq![0u8, 0, 0]]
    } else if name == "plasma"@ {
        seq![seq![0u8, 0, 0], seq![0u8, 60, 150], seq![240u8, 255, 128], seq![200u8, 0, 128], seq![0u8, 0, 0]]
    } else if name == "crystal"@ {
        seq![seq![255u8, 255, 255], seq![200u8, 255, 255], seq![150u8, 220, 255], seq![90u8, 90, 180], seq![0u8, 0, 0]]
    } else if name == "sapling"@ {
        seq![seq![204u8, 236, 255], seq![204u8, 236, 255], seq![190u8, 224, 116], seq![90u8, 60, 0], seq![0u8, 0, 0]]
    } else if name == "firelotus"@ {
        seq![seq![20u8, 40, 81], seq![72u8, 92, 117], seq![255u8, 130, 159], seq![255u8, 200, 43], seq![255u8, 230, 158]]
    } else if name == "underwater"@ {
        seq![seq![0u8, 0, 20], seq![0u8, 43, 95], seq![0u8, 78, 171], seq![128u8, 255, 155], seq![255u8, 255, 215]]
    } else {
        grayscale_table()
    }
}

/// One of the names of the table.
pub open spec fn is_known_palette(name: Seq<char>) -> bool {
    name == "cool"@ || name == "plasma"@ || name == "crystal"@ || name == "sapling"@ || name
        == "firelotus"@ || name == "underwater"@
}

/// The fallback ramp from black to white.
pub open spec fn grayscale_table() -> Seq<Seq<u8>> {
    seq![seq![0u8, 0, 0], seq![100u8, 100, 100], seq![150u8, 150, 150], seq![200u8, 200, 200], seq![255u8, 255, 255]]
}

/// A palette holds the colours `t` lists, stop by stop and channel by channel.
pub open spec fn palette_is(p: Palette, t: Seq<Seq<u8>>) -> bool {
    forall|i: int, ch: int| 0 <= i < 5 && 0 <= ch < 3 ==> #[trigger] p[i][ch] == t[i][ch]
}

pub(crate) fn same_name(a: &str, b: &str) -> (r: bool)
    ensures
        r == (a@ == b@),
{
    a.to_owned() == b.to_owned()
}

/// Looks a gradient up by name; an unknown name gives the grayscale ramp.
pub fn color_palette(pal: &str) -> (r: Palette)
    ensures
        palette_is(r, palette_table(pal@)),
        !is_known_palette(pal@) ==> palette_is(r, grayscale_table()),
{
    if same_name(pal, "cool") {
        [[0, 0, 0], [60, 0, 90], [128, 238, 255], [0, 100, 200], [0, 0, 0]]
    } else if same_name(pal, "plasma") {
        [[0, 0, 0], [0, 60, 150], [240, 255, 128], [200, 0, 128], [0, 0, 0]]
    } else if same_name(pal, "crystal") {
        [[255, 255, 255], [200, 255, 255], [150, 220, 255], [90, 90, 180], [0, 0, 0]]
    } else if same_name(pal, "sapling") {
        [[204, 236, 255], [204, 236, 255], [190, 224, 116], [90, 60, 0], [0, 0, 0]]
    } else if same_name(pal, "firelotus") {
        [[20, 40, 81], [72, 92, 117], [255, 130, 159], [255, 200, 43], [255, 230, 158]]
    } else if same_name(pal, "underwater") {
        [[0, 0, 20], [0, 43, 95], [0, 78, 171], [128, 255, 155], [255, 255, 215]]
    } else {
        [[0, 0, 0], [100, 100, 100], [150, 150, 150], [200, 200, 200], [255, 255, 255]]
    }
}

} // verus!
