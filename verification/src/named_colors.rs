//! The CSS named colours (CSS Color Module Level 4): 148 names, including the
//! British-spelling `grey` aliases and `rebeccapurple`.
use vstd::prelude::*;
use crate::text::chars_of;

verus! {

/// How many named colours the table holds.
pub const NAMED_COLOR_COUNT: usize = 148;

/// Entry `i` of the named-colour table: the lowercase name and its red, green
/// and blue channels.
pub open spec fn named_color_entry(i: int) -> (Seq<char>, u8, u8, u8) {
    if i == 0 {
        ("aliceblue"@, 240, 248, 255)
    } else if i == 1 {
        ("antiquewhite"@, 250, 235, 215)
    } else if i == 2 {
        ("aqua"@, 0, 255, 255)
    } else if i == 3 {
        ("aquamarine"@, 127, 255, 212)
    } else if i == 4 {
        ("azure"@, 240, 255, 255)
    } else if i == 5 {
        ("beige"@, 245, 245, 220)
    } else if i == 6 {
        ("bisque"@, 255, 228, 196)
    } else if i == 7 {
        ("black"@, 0, 0, 0)
    } else if i == 8 {
        ("blanchedalmond"@, 255, 235, 205)
    } else if i == 9 {
        ("blue"@, 0, 0, 255)
    } else if i == 10 {
        ("blueviolet"@, 138, 43, 226)
    } else if i == 11 {
        ("brown"@, 165, 42, 42)
    } else if i == 12 {
        ("burlywood"@, 222, 184, 135)
    } else if i == 13 {
        ("cadetblue"@, 95, 158, 160)
    } else if i == 14 {
        ("chartreuse"@, 127, 255, 0)
    } else if i == 15 {
        ("chocolate"@, 210, 105, 30)
    } else if i == 16 {
        ("coral"@, 255, 127, 80)
    } else if i == 17 {
        ("cornflowerblue"@, 100, 149, 237)
    } else if i == 18 {
        ("cornsilk"@, 255, 248, 220)
    } else if i == 19 {
        ("crimson"@, 220, 20, 60)
    } else if i == 20 {
        ("cyan"@, 0, 255, 255)
    } else if i == 21 {
        ("darkblue"@, 0, 0, 139)
    } else if i == 22 {
        ("darkcyan"@, 0, 139, 139)
    } else if i == 23 {
        ("darkgoldenrod"@, 184, 134, 11)
    } else if i == 24 {
        ("darkgray"@, 169, 169, 169)
    } else if i == 25 {
        ("darkgreen"@, 0, 100, 0)
    } else if i == 26 {
        ("darkgrey"@, 169, 169, 169)
    } else if i == 27 {
        ("darkkhaki"@, 189, 183, 107)
    } else if i == 28 {
        ("darkmagenta"@, 139, 0, 139)
    } else if i == 29 {
        ("darkolivegreen"@, 85, 107, 47)
    } else if i == 30 {
        ("darkorange"@, 255, 140, 0)
    } else if i == 31 {
        ("darkorchid"@, 153, 50, 204)
    } else if i == 32 {
        ("darkred"@, 139, 0, 0)
    } else if i == 33 {
        ("darksalmon"@, 233, 150, 122)
    } else if i == 34 {
        ("darkseagreen"@, 143, 188, 143)
    } else if i == 35 {
        ("darkslateblue"@, 72, 61, 139)
    } else if i == 36 {
        ("darkslategray"@, 47, 79, 79)
    } else if i == 37 {
        ("darkslategrey"@, 47, 79, 79)
    } else if i == 38 {
        ("darkturquoise"@, 0, 206, 209)
    } else if i == 39 {
        ("darkviolet"@, 148, 0, 211)
    } else if i == 40 {
        ("deeppink"@, 255, 20, 147)
    } else if i == 41 {
        ("deepskyblue"@, 0, 191, 255)
    } else if i == 42 {
        ("dimgray"@, 105, 105, 105)
    } else if i == 43 {
        ("dimgrey"@, 105, 105, 105)
    } else if i == 44 {
        ("dodgerblue"@, 30, 144, 255)
    } else if i == 45 {
        ("firebrick"@, 178, 34, 34)
    } else if i == 46 {
        ("floralwhite"@, 255, 250, 240)
    } else if i == 47 {
        ("forestgreen"@, 34, 139, 34)
    } else if i == 48 {
        ("fuchsia"@, 255, 0, 255)
    } else if i == 49 {
        ("gainsboro"@, 220, 220, 220)
    } else if i == 50 {
        ("ghostwhite"@, 248, 248, 255)
    } else if i == 51 {
        ("gold"@, 255, 215, 0)
    } else if i == 52 {
        ("goldenrod"@, 218, 165, 32)
    } else if i == 53 {
        ("gray"@, 128, 128, 128)
    } else if i == 54 {
        ("green"@, 0, 128, 0)
    } else if i == 55 {
        ("greenyellow"@, 173, 255, 47)
    } else if i == 56 {
        ("grey"@, 128, 128, 128)
    } else if i == 57 {
        ("honeydew"@, 240, 255, 240)
    } else if i == 58 {
        ("hotpink"@, 255, 105, 180)
    } else if i == 59 {
        ("indianred"@, 205, 92, 92)
    } else if i == 60 {
        ("indigo"@, 75, 0, 130)
    } else if i == 61 {
        ("ivory"@, 255, 255, 240)
    } else if i == 62 {
        ("khaki"@, 240, 230, 140)
    } else if i == 63 {
        ("lavender"@, 230, 230, 250)
    } else if i == 64 {
        ("lavenderblush"@, 255, 240, 245)
    } else if i == 65 {
        ("lawngreen"@, 124, 252, 0)
    } else if i == 66 {
        ("lemonchiffon"@, 255, 250, 205)
    } else if i == 67 {
        ("lightblue"@, 173, 216, 230)
    } else if i == 68 {
        ("lightcoral"@, 240, 128, 128)
    } else if i == 69 {
        ("lightcyan"@, 224, 255, 255)
    } else if i == 70 {
        ("lightgoldenrodyellow"@, 250, 250, 210)
    } else if i == 71 {
        ("lightgray"@, 211, 211, 211)
    } else if i == 72 {
        ("lightgreen"@, 144, 238, 144)
    } else if i == 73 {
        ("lightgrey"@, 211, 211, 211)
    } else if i == 74 {
        ("lightpink"@, 255, 182, 193)
    } else if i == 75 {
        ("lightsalmon"@, 255, 160, 122)
    } else if i == 76 {
        ("lightseagreen"@, 32, 178, 170)
    } else if i == 77 {
        ("lightskyblue"@, 135, 206, 250)
    } else if i == 78 {
        ("lightslategray"@, 119, 136, 153)
    } else if i == 79 {
        ("lightslategrey"@, 119, 136, 153)
    } else if i == 80 {
        ("lightsteelblue"@, 176, 196, 222)
    } else if i == 81 {
        ("lightyellow"@, 255, 255, 224)
    } else if i == 82 {
        ("lime"@, 0, 255, 0)
    } else if i == 83 {
        ("limegreen"@, 50, 205, 50)
    } else if i == 84 {
        ("linen"@, 250, 240, 230)
    } else if i == 85 {
        ("magenta"@, 255, 0, 255)
    } else if i == 86 {
        ("maroon"@, 128, 0, 0)
    } else if i == 87 {
        ("mediumaquamarine"@, 102, 205, 170)
    } else if i == 88 {
        ("mediumblue"@, 0, 0, 205)
    } else if i == 89 {
        ("mediumorchid"@, 186, 85, 211)
    } else if i == 90 {
        ("mediumpurple"@, 147, 112, 219)
    } else if i == 91 {
        ("mediumseagreen"@, 60, 179, 113)
    } else if i == 92 {
        ("mediumslateblue"@, 123, 104, 238)
    } else if i == 93 {
        ("mediumspringgreen"@, 0, 250, 154)
    } else if i == 94 {
        ("mediumturquoise"@, 72, 209, 204)
    } else if i == 95 {
        ("mediumvioletred"@, 199, 21, 133)
    } else if i == 96 {
        ("midnightblue"@, 25, 25, 112)
    } else if i == 97 {
        ("mintcream"@, 245, 255, 250)
    } else if i == 98 {
        ("mistyrose"@, 255, 228, 225)
    } else if i == 99 {
        ("moccasin"@, 255, 228, 181)
    } else if i == 100 {
        ("navajowhite"@, 255, 222, 173)
    } else if i == 101 {
        ("navy"@, 0, 0, 128)
    } else if i == 102 {
        ("oldlace"@, 253, 245, 230)
    } else if i == 103 {
        ("olive"@, 128, 128, 0)
    } else if i == 104 {
        ("olivedrab"@, 107, 142, 35)
    } else if i == 105 {
        ("orange"@, 255, 165, 0)
    } else if i == 106 {
        ("orangered"@, 255, 69, 0)
    } else if i == 107 {
        ("orchid"@, 218, 112, 214)
    } else if i == 108 {
        ("palegoldenrod"@, 238, 232, 170)
    } else if i == 109 {
        ("palegreen"@, 152, 251, 152)
    } else if i == 110 {
        ("paleturquoise"@, 175, 238, 238)
    } else if i == 111 {
        ("palevioletred"@, 219, 112, 147)
    } else if i == 112 {
        ("papayawhip"@, 255, 239, 213)
    } else if i == 113 {
        ("peachpuff"@, 255, 218, 185)
    } else if i == 114 {
        ("peru"@, 205, 133, 63)
    } else if i == 115 {
        ("pink"@, 255, 192, 203)
    } else if i == 116 {
        ("plum"@, 221, 160, 221)
    } else if i == 117 {
        ("powderblue"@, 176, 224, 230)
    } else if i == 118 {
        ("purple"@, 128, 0, 128)
    } else if i == 119 {
        ("rebeccapurple"@, 102, 51, 153)
    } else if i == 120 {
        ("red"@, 255, 0, 0)
    } else if i == 121 {
        ("rosybrown"@, 188, 143, 143)
    } else if i == 122 {
        ("royalblue"@, 65, 105, 225)
    } else if i == 123 {
        ("saddlebrown"@, 139, 69, 19)
    } else if i == 124 {
        ("salmon"@, 250, 128, 114)
    } else if i == 125 {
        ("sandybrown"@, 244, 164, 96)
    } else if i == 126 {
        ("seagreen"@, 46, 139, 87)
    } else if i == 127 {
        ("seashell"@, 255, 245, 238)
    } else if i == 128 {
        ("sienna"@, 160, 82, 45)
    } else if i == 129 {
        ("silver"@, 192, 192, 192)
    } else if i == 130 {
        ("skyblue"@, 135, 206, 235)
    } else if i == 131 {
        ("slateblue"@, 106, 90, 205)
    } else if i == 132 {
        ("slategray"@, 112, 128, 144)
    } else if i == 133 {
        ("slategrey"@, 112, 128, 144)
    } else if i == 134 {
        ("snow"@, 255, 250, 250)
    } else if i == 135 {
        ("springgreen"@, 0, 255, 127)
    } else if i == 136 {
        ("steelblue"@, 70, 130, 180)
    } else if i == 137 {
        ("tan"@, 210, 180, 140)
    } else if i == 138 {
        ("teal"@, 0, 128, 128)
    } else if i == 139 {
        ("thistle"@, 216, 191, 216)
    } else if i == 140 {
        ("tomato"@, 255, 99, 71)
    } else if i == 141 {
        ("turquoise"@, 64, 224, 208)
    } else if i == 142 {
        ("violet"@, 238, 130, 238)
    } else if i == 143 {
        ("wheat"@, 245, 222, 179)
    } else if i == 144 {
        ("white"@, 255, 255, 255)
    } else if i == 145 {
        ("whitesmoke"@, 245, 245, 245)
    } else if i == 146 {
        ("yellow"@, 255, 255, 0)
    } else {
        ("yellowgreen"@, 154, 205, 50)
    }
}

/// The channels of the first table entry at or after `i` named `name`.
pub open spec fn named_rgb_from(name: Seq<char>, i: int) -> Option<(u8, u8, u8)>
    decreases NAMED_COLOR_COUNT - i,
{
    if i < 0 || i >= NAMED_COLOR_COUNT {
        None
    } else if named_color_entry(i).0 == name {
        Some((named_color_entry(i).1, named_color_entry(i).2, named_color_entry(i).3))
    } else {
        named_rgb_from(name, i + 1)
    }
}

/// The channels of the named colour `name`, if `name` is one of the CSS names
/// (exact, lowercase spelling).
pub open spec fn named_rgb(name: Seq<char>) -> Option<(u8, u8, u8)> {
    named_rgb_from(name, 0)
}

/// The code of a name: its first 20 characters read as base-128 digits, with
/// missing characters counting as zero.
pub open spec fn name_code(s: Seq<char>, k: nat) -> int
    decreases k,
{
    if k == 0 {
        0
    } else {
        name_code(s, (k - 1) as nat) * 128 + if k - 1 < s.len() {
            s[k - 1] as int
        } else {
            0
        }
    }
}

/// The code of the name of table entry `i`.
pub open spec fn table_code(i: int) -> int {
    name_code(named_color_entry(i).0, 20)
}

proof fn lemma_codes_increase(j: int, i: int)
    requires
        0 <= j < i < NAMED_COLOR_COUNT,
    ensures
        table_code(j) < table_code(i),
    decreases i - j,
{
    lemma_codes_step(i - 1);
    if j < i - 1 {
        lemma_codes_increase(j, i - 1);
    }
}

proof fn lemma_rgb_from_entry(name: Seq<char>, k: int, i: int)
    requires
        0 <= k <= i < NAMED_COLOR_COUNT,
        name == named_color_entry(i).0,
    ensures
        named_rgb_from(name, k) == Some(
            (named_color_entry(i).1, named_color_entry(i).2, named_color_entry(i).3),
        ),
    decreases i - k,
{
    if k < i {
        lemma_codes_increase(k, i);
        assert(named_color_entry(k).0 != name);
        lemma_rgb_from_entry(name, k + 1, i);
    }
}

proof fn lemma_rgb_from_found(name: Seq<char>, k: int)
    requires
        0 <= k,
    ensures
        named_rgb_from(name, k) is Some ==> exists|i: int|
            k <= i < NAMED_COLOR_COUNT && #[trigger] named_color_entry(i).0 == name,
    decreases NAMED_COLOR_COUNT - k,
{
    if k < NAMED_COLOR_COUNT && named_color_entry(k).0 != name {
        lemma_rgb_from_found(name, k + 1);
    }
}

/// The named-colour table as lookups see it: the name of each entry looks up
/// that entry's channels, and a name looks up anything only when some entry
/// has it.
pub proof fn lemma_named_rgb_table(name: Seq<char>)
    ensures
        forall|i: int|
            #![trigger named_color_entry(i)]
            0 <= i < NAMED_COLOR_COUNT ==> named_rgb(named_color_entry(i).0) == Some(
                (named_color_entry(i).1, named_color_entry(i).2, named_color_entry(i).3),
            ),
        named_rgb(name) is Some <==> exists|i: int|
            0 <= i < NAMED_COLOR_COUNT && #[trigger] named_color_entry(i).0 == name,
{
    assert forall|i: int|
        #![trigger named_color_entry(i)]
        0 <= i < NAMED_COLOR_COUNT implies named_rgb(named_color_entry(i).0) == Some(
            (named_color_entry(i).1, named_color_entry(i).2, named_color_entry(i).3),
        ) by {
        lemma_rgb_from_entry(named_color_entry(i).0, 0, i);
    }
    lemma_rgb_from_found(name, 0);
    if exists|i: int| 0 <= i < NAMED_COLOR_COUNT && #[trigger] named_color_entry(i).0 == name {
        let i = choose|i: int| 0 <= i < NAMED_COLOR_COUNT && #[trigger] named_color_entry(i).0 == name;
        lemma_rgb_from_entry(name, 0, i);
    }
}

/// The CSS named colours and their values (CSS Color Module Level 4): each
/// of these names looks up exactly these red, green and blue channels.
#[verifier::spinoff_prover]
#[verifier::rlimit(100)]
pub proof fn lemma_css_named_values()
    ensures
        named_rgb("aliceblue"@) == Some((240u8, 248u8, 255u8)),
        named_rgb("antiquewhite"@) == Some((250u8, 235u8, 215u8)),
        named_rgb("aqua"@) == Some((0u8, 255u8, 255u8)),
        named_rgb("aquamarine"@) == Some((127u8, 255u8, 212u8)),
        named_rgb("azure"@) == Some((240u8, 255u8, 255u8)),
        named_rgb("beige"@) == Some((245u8, 245u8, 220u8)),
        named_rgb("bisque"@) == Some((255u8, 228u8, 196u8)),
        named_rgb("black"@) == Some((0u8, 0u8, 0u8)),
        named_rgb("blanchedalmond"@) == Some((255u8, 235u8, 205u8)),
        named_rgb("blue"@) == Some((0u8, 0u8, 255u8)),
        named_rgb("blueviolet"@) == Some((138u8, 43u8, 226u8)),
        named_rgb("brown"@) == Some((165u8, 42u8, 42u8)),
        named_rgb("burlywood"@) == Some((222u8, 184u8, 135u8)),
        named_rgb("cadetblue"@) == Some((95u8, 158u8, 160u8)),
        named_rgb("chartreuse"@) == Some((127u8, 255u8, 0u8)),
        named_rgb("chocolate"@) == Some((210u8, 105u8, 30u8)),
        named_rgb("coral"@) == Some((255u8, 127u8, 80u8)),
        named_rgb("cornflowerblue"@) == Some((100u8, 149u8, 237u8)),
        named_rgb("cornsilk"@) == Some((255u8, 248u8, 220u8)),
        named_rgb("crimson"@) == Some((220u8, 20u8, 60u8)),
        named_rgb("cyan"@) == Some((0u8, 255u8, 255u8)),
        named_rgb("darkblue"@) == Some((0u8, 0u8, 139u8)),
        named_rgb("darkcyan"@) == Some((0u8, 139u8, 139u8)),
        named_rgb("darkgoldenrod"@) == Some((184u8, 134u8, 11u8)),
        named_rgb("darkgray"@) == Some((169u8, 169u8, 169u8)),
        named_rgb("darkgreen"@) == Some((0u8, 100u8, 0u8)),
        named_rgb("darkgrey"@) == Some((169u8, 169u8, 169u8)),
        named_rgb("darkkhaki"@) == Some((189u8, 183u8, 107u8)),
        named_rgb("darkmagenta"@) == Some((139u8, 0u8, 139u8)),
        named_rgb("darkolivegreen"@) == Some((85u8, 107u8, 47u8)),
        named_rgb("darkorange"@) == Some((255u8, 140u8, 0u8)),
        named_rgb("darkorchid"@) == Some((153u8, 50u8, 204u8)),
        named_rgb("darkred"@) == Some((139u8, 0u8, 0u8)),
        named_rgb("darksalmon"@) == Some((233u8, 150u8, 122u8)),
        named_rgb("darkseagreen"@) == Some((143u8, 188u8, 143u8)),
        named_rgb("darkslateblue"@) == Some((72u8, 61u8, 139u8)),
        named_rgb("darkslategray"@) == Some((47u8, 79u8, 79u8)),
        named_rgb("darkslategrey"@) == Some((47u8, 79u8, 79u8)),
        named_rgb("darkturquoise"@) == Some((0u8, 206u8, 209u8)),
        named_rgb("darkviolet"@) == Some((148u8, 0u8, 211u8)),
        named_rgb("deeppink"@) == Some((255u8, 20u8, 147u8)),
        named_rgb("deepskyblue"@) == Some((0u8, 191u8, 255u8)),
        named_rgb("dimgray"@) == Some((105u8, 105u8, 105u8)),
        named_rgb("dimgrey"@) == Some((105u8, 105u8, 105u8)),
        named_rgb("dodgerblue"@) == Some((30u8, 144u8, 255u8)),
        named_rgb("firebrick"@) == Some((178u8, 34u8, 34u8)),
        named_rgb("floralwhite"@) == Some((255u8, 250u8, 240u8)),
        named_rgb("forestgreen"@) == Some((34u8, 139u8, 34u8)),
        named_rgb("fuchsia"@) == Some((255u8, 0u8, 255u8)),
        named_rgb("gainsboro"@) == Some((220u8, 220u8, 220u8)),
        named_rgb("ghostwhite"@) == Some((248u8, 248u8, 255u8)),
        named_rgb("gold"@) == Some((255u8, 215u8, 0u8)),
        named_rgb("goldenrod"@) == Some((218u8, 165u8, 32u8)),
        named_rgb("gray"@) == Some((128u8, 128u8, 128u8)),
        named_rgb("green"@) == Some((0u8, 128u8, 0u8)),
        named_rgb("greenyellow"@) == Some((173u8, 255u8, 47u8)),
        named_rgb("grey"@) == Some((128u8, 128u8, 128u8)),
        named_rgb("honeydew"@) == Some((240u8, 255u8, 240u8)),
        named_rgb("hotpink"@) == Some((255u8, 105u8, 180u8)),
        named_rgb("indianred"@) == Some((205u8, 92u8, 92u8)),
        named_rgb("indigo"@) == Some((75u8, 0u8, 130u8)),
        named_rgb("ivory"@) == Some((255u8, 255u8, 240u8)),
        named_rgb("khaki"@) == Some((240u8, 230u8, 140u8)),
        named_rgb("lavender"@) == Some((230u8, 230u8, 250u8)),
        named_rgb("lavenderblush"@) == Some((255u8, 240u8, 245u8)),
        named_rgb("lawngreen"@) == Some((124u8, 252u8, 0u8)),
        named_rgb("lemonchiffon"@) == Some((255u8, 250u8, 205u8)),
        named_rgb("lightblue"@) == Some((173u8, 216u8, 230u8)),
        named_rgb("lightcoral"@) == Some((240u8, 128u8, 128u8)),
        named_rgb("lightcyan"@) == Some((224u8, 255u8, 255u8)),
        named_rgb("lightgoldenrodyellow"@) == Some((250u8, 250u8, 210u8)),
        named_rgb("lightgray"@) == Some((211u8, 211u8, 211u8)),
        named_rgb("lightgreen"@) == Some((144u8, 238u8, 144u8)),
        named_rgb("lightgrey"@) == Some((211u8, 211u8, 211u8)),
        named_rgb("lightpink"@) == Some((255u8, 182u8, 193u8)),
        named_rgb("lightsalmon"@) == Some((255u8, 160u8, 122u8)),
        named_rgb("lightseagreen"@) == Some((32u8, 178u8, 170u8)),
        named_rgb("lightskyblue"@) == Some((135u8, 206u8, 250u8)),
        named_rgb("lightslategray"@) == Some((119u8, 136u8, 153u8)),
        named_rgb("lightslategrey"@) == Some((119u8, 136u8, 153u8)),
        named_rgb("lightsteelblue"@) == Some((176u8, 196u8, 222u8)),
        named_rgb("lightyellow"@) == Some((255u8, 255u8, 224u8)),
        named_rgb("lime"@) == Some((0u8, 255u8, 0u8)),
        named_rgb("limegreen"@) == Some((50u8, 205u8, 50u8)),
        named_rgb("linen"@) == Some((250u8, 240u8, 230u8)),
        named_rgb("magenta"@) == Some((255u8, 0u8, 255u8)),
        named_rgb("maroon"@) == Some((128u8, 0u8, 0u8)),
        named_rgb("mediumaquamarine"@) == Some((102u8, 205u8, 170u8)),
        named_rgb("mediumblue"@) == Some((0u8, 0u8, 205u8)),
        named_rgb("mediumorchid"@) == Some((186u8, 85u8, 211u8)),
        named_rgb("mediumpurple"@) == Some((147u8, 112u8, 219u8)),
        named_rgb("mediumseagreen"@) == Some((60u8, 179u8, 113u8)),
        named_rgb("mediumslateblue"@) == Some((123u8, 104u8, 238u8)),
        named_rgb("mediumspringgreen"@) == Some((0u8, 250u8, 154u8)),
        named_rgb("mediumturquoise"@) == Some((72u8, 209u8, 204u8)),
        named_rgb("mediumvioletred"@) == Some((199u8, 21u8, 133u8)),
        named_rgb("midnightblue"@) == Some((25u8, 25u8, 112u8)),
        named_rgb("mintcream"@) == Some((245u8, 255u8, 250u8)),
        named_rgb("mistyrose"@) == Some((255u8, 228u8, 225u8)),
        named_rgb("moccasin"@) == Some((255u8, 228u8, 181u8)),
        named_rgb("navajowhite"@) == Some((255u8, 222u8, 173u8)),
        named_rgb("navy"@) == Some((0u8, 0u8, 128u8)),
        named_rgb("oldlace"@) == Some((253u8, 245u8, 230u8)),
        named_rgb("olive"@) == Some((128u8, 128u8, 0u8)),
        named_rgb("olivedrab"@) == Some((107u8, 142u8, 35u8)),
        named_rgb("orange"@) == Some((255u8, 165u8, 0u8)),
        named_rgb("orangered"@) == Some((255u8, 69u8, 0u8)),
        named_rgb("orchid"@) == Some((218u8, 112u8, 214u8)),
        named_rgb("palegoldenrod"@) == Some((238u8, 232u8, 170u8)),
        named_rgb("palegreen"@) == Some((152u8, 251u8, 152u8)),
        named_rgb("paleturquoise"@) == Some((175u8, 238u8, 238u8)),
        named_rgb("palevioletred"@) == Some((219u8, 112u8, 147u8)),
        named_rgb("papayawhip"@) == Some((255u8, 239u8, 213u8)),
        named_rgb("peachpuff"@) == Some((255u8, 218u8, 185u8)),
        named_rgb("peru"@) == Some((205u8, 133u8, 63u8)),
        named_rgb("pink"@) == Some((255u8, 192u8, 203u8)),
        named_rgb("plum"@) == Some((221u8, 160u8, 221u8)),
        named_rgb("powderblue"@) == Some((176u8, 224u8, 230u8)),
        named_rgb("purple"@) == Some((128u8, 0u8, 128u8)),
        named_rgb("rebeccapurple"@) == Some((102u8, 51u8, 153u8)),
        named_rgb("red"@) == Some((255u8, 0u8, 0u8)),
        named_rgb("rosybrown"@) == Some((188u8, 143u8, 143u8)),
        named_rgb("royalblue"@) == Some((65u8, 105u8, 225u8)),
        named_rgb("saddlebrown"@) == Some((139u8, 69u8, 19u8)),
        named_rgb("salmon"@) == Some((250u8, 128u8, 114u8)),
        named_rgb("sandybrown"@) == Some((244u8, 164u8, 96u8)),
        named_rgb("seagreen"@) == Some((46u8, 139u8, 87u8)),
        named_rgb("seashell"@) == Some((255u8, 245u8, 238u8)),
        named_rgb("sienna"@) == Some((160u8, 82u8, 45u8)),
        named_rgb("silver"@) == Some((192u8, 192u8, 192u8)),
        named_rgb("skyblue"@) == Some((135u8, 206u8, 235u8)),
        named_rgb("slateblue"@) == Some((106u8, 90u8, 205u8)),
        named_rgb("slategray"@) == Some((112u8, 128u8, 144u8)),
        named_rgb("slategrey"@) == Some((112u8, 128u8, 144u8)),
        named_rgb("snow"@) == Some((255u8, 250u8, 250u8)),
        named_rgb("springgreen"@) == Some((0u8, 255u8, 127u8)),
        named_rgb("steelblue"@) == Some((70u8, 130u8, 180u8)),
        named_rgb("tan"@) == Some((210u8, 180u8, 140u8)),
        named_rgb("teal"@) == Some((0u8, 128u8, 128u8)),
        named_rgb("thistle"@) == Some((216u8, 191u8, 216u8)),
        named_rgb("tomato"@) == Some((255u8, 99u8, 71u8)),
        named_rgb("turquoise"@) == Some((64u8, 224u8, 208u8)),
        named_rgb("violet"@) == Some((238u8, 130u8, 238u8)),
        named_rgb("wheat"@) == Some((245u8, 222u8, 179u8)),
        named_rgb("white"@) == Some((255u8, 255u8, 255u8)),
        named_rgb("whitesmoke"@) == Some((245u8, 245u8, 245u8)),
        named_rgb("yellow"@) == Some((255u8, 255u8, 0u8)),
        named_rgb("yellowgreen"@) == Some((154u8, 205u8, 50u8)),
{
    lemma_named_rgb_table(seq![]);
    assert(named_color_entry(0).0 == "aliceblue"@);
    assert(named_color_entry(1).0 == "antiquewhite"@);
    assert(named_color_entry(2).0 == "aqua"@);
    assert(named_color_entry(3).0 == "aquamarine"@);
    assert(named_color_entry(4).0 == "azure"@);
    assert(named_color_entry(5).0 == "beige"@);
    assert(named_color_entry(6).0 == "bisque"@);
    assert(named_color_entry(7).0 == "black"@);
    assert(named_color_entry(8).0 == "blanchedalmond"@);
    assert(named_color_entry(9).0 == "blue"@);
    assert(named_color_entry(10).0 == "blueviolet"@);
    assert(named_color_entry(11).0 == "brown"@);
    assert(named_color_entry(12).0 == "burlywood"@);
    assert(named_color_entry(13).0 == "cadetblue"@);
    assert(named_color_entry(14).0 == "chartreuse"@);
    assert(named_color_entry(15).0 == "chocolate"@);
    assert(named_color_entry(16).0 == "coral"@);
    assert(named_color_entry(17).0 == "cornflowerblue"@);
    assert(named_color_entry(18).0 == "cornsilk"@);
    assert(named_color_entry(19).0 == "crimson"@);
    assert(named_color_entry(20).0 == "cyan"@);
    assert(named_color_entry(21).0 == "darkblue"@);
    assert(named_color_entry(22).0 == "darkcyan"@);
    assert(named_color_entry(23).0 == "darkgoldenrod"@);
    assert(named_color_entry(24).0 == "darkgray"@);
    assert(named_color_entry(25).0 == "darkgreen"@);
    assert(named_color_entry(26).0 == "darkgrey"@);
    assert(named_color_entry(27).0 == "darkkhaki"@);
    assert(named_color_entry(28).0 == "darkmagenta"@);
    assert(named_color_entry(29).0 == "darkolivegreen"@);
    assert(named_color_entry(30).0 == "darkorange"@);
    assert(named_color_entry(31).0 == "darkorchid"@);
    assert(named_color_entry(32).0 == "darkred"@);
    assert(named_color_entry(33).0 == "darksalmon"@);
    assert(named_color_entry(34).0 == "darkseagreen"@);
    assert(named_color_entry(35).0 == "darkslateblue"@);
    assert(named_color_entry(36).0 == "darkslategray"@);
    assert(named_color_entry(37).0 == "darkslategrey"@);
    assert(named_color_entry(38).0 == "darkturquoise"@);
    assert(named_color_entry(39).0 == "darkviolet"@);
    assert(named_color_entry(40).0 == "deeppink"@);
    assert(named_color_entry(41).0 == "deepskyblue"@);
    assert(named_color_entry(42).0 == "dimgray"@);
    assert(named_color_entry(43).0 == "dimgrey"@);
    assert(named_color_entry(44).0 == "dodgerblue"@);
    assert(named_color_entry(45).0 == "firebrick"@);
    assert(named_color_entry(46).0 == "floralwhite"@);
    assert(named_color_entry(47).0 == "forestgreen"@);
    assert(named_color_entry(48).0 == "fuchsia"@);
    assert(named_color_entry(49).0 == "gainsboro"@);
    assert(named_color_entry(50).0 == "ghostwhite"@);
    assert(named_color_entry(51).0 == "gold"@);
    assert(named_color_entry(52).0 == "goldenrod"@);
    assert(named_color_entry(53).0 == "gray"@);
    assert(named_color_entry(54).0 == "green"@);
    assert(named_color_entry(55).0 == "greenyellow"@);
    assert(named_color_entry(56).0 == "grey"@);
    assert(named_color_entry(57).0 == "honeydew"@);
    assert(named_color_entry(58).0 == "hotpink"@);
    assert(named_color_entry(59).0 == "indianred"@);
    assert(named_color_entry(60).0 == "indigo"@);
    assert(named_color_entry(61).0 == "ivory"@);
    assert(named_color_entry(62).0 == "khaki"@);
    assert(named_color_entry(63).0 == "lavender"@);
    assert(named_color_entry(64).0 == "lavenderblush"@);
    assert(named_color_entry(65).0 == "lawngreen"@);
    assert(named_color_entry(66).0 == "lemonchiffon"@);
    assert(named_color_entry(67).0 == "lightblue"@);
    assert(named_color_entry(68).0 == "lightcoral"@);
    assert(named_color_entry(69).0 == "lightcyan"@);
    assert(named_color_entry(70).0 == "lightgoldenrodyellow"@);
    assert(named_color_entry(71).0 == "lightgray"@);
    assert(named_color_entry(72).0 == "lightgreen"@);
    assert(named_color_entry(73).0 == "lightgrey"@);
    assert(named_color_entry(74).0 == "lightpink"@);
    assert(named_color_entry(75).0 == "lightsalmon"@);
    assert(named_color_entry(76).0 == "lightseagreen"@);
    assert(named_color_entry(77).0 == "lightskyblue"@);
    assert(named_color_entry(78).0 == "lightslategray"@);
    assert(named_color_entry(79).0 == "lightslategrey"@);
    assert(named_color_entry(80).0 == "lightsteelblue"@);
    assert(named_color_entry(81).0 == "lightyellow"@);
    assert(named_color_entry(82).0 == "lime"@);
    assert(named_color_entry(83).0 == "limegreen"@);
    assert(named_color_entry(84).0 == "linen"@);
    assert(named_color_entry(85).0 == "magenta"@);
    assert(named_color_entry(86).0 == "maroon"@);
    assert(named_color_entry(87).0 == "mediumaquamarine"@);
    assert(named_color_entry(88).0 == "mediumblue"@);
    assert(named_color_entry(89).0 == "mediumorchid"@);
    assert(named_color_entry(90).0 == "mediumpurple"@);
    assert(named_color_entry(91).0 == "mediumseagreen"@);
    assert(named_color_entry(92).0 == "mediumslateblue"@);
    assert(named_color_entry(93).0 == "mediumspringgreen"@);
    assert(named_color_entry(94).0 == "mediumturquoise"@);
    assert(named_color_entry(95).0 == "mediumvioletred"@);
    assert(named_color_entry(96).0 == "midnightblue"@);
    assert(named_color_entry(97).0 == "mintcream"@);
    assert(named_color_entry(98).0 == "mistyrose"@);
    assert(named_color_entry(99).0 == "moccasin"@);
    assert(named_color_entry(100).0 == "navajowhite"@);
    assert(named_color_entry(101).0 == "navy"@);
    assert(named_color_entry(102).0 == "oldlace"@);
    assert(named_color_entry(103).0 == "olive"@);
    assert(named_color_entry(104).0 == "olivedrab"@);
    assert(named_color_entry(105).0 == "orange"@);
    assert(named_color_entry(106).0 == "orangered"@);
    assert(named_color_entry(107).0 == "orchid"@);
    assert(named_color_entry(108).0 == "palegoldenrod"@);
    assert(named_color_entry(109).0 == "palegreen"@);
    assert(named_color_entry(110).0 == "paleturquoise"@);
    assert(named_color_entry(111).0 == "palevioletred"@);
    assert(named_color_entry(112).0 == "papayawhip"@);
    assert(named_color_entry(113).0 == "peachpuff"@);
    assert(named_color_entry(114).0 == "peru"@);
    assert(named_color_entry(115).0 == "pink"@);
    assert(named_color_entry(116).0 == "plum"@);
    assert(named_color_entry(117).0 == "powderblue"@);
    assert(named_color_entry(118).0 == "purple"@);
    assert(named_color_entry(119).0 == "rebeccapurple"@);
    assert(named_color_entry(120).0 == "red"@);
    assert(named_color_entry(121).0 == "rosybrown"@);
    assert(named_color_entry(122).0 == "royalblue"@);
    assert(named_color_entry(123).0 == "saddlebrown"@);
    assert(named_color_entry(124).0 == "salmon"@);
    assert(named_color_entry(125).0 == "sandybrown"@);
    assert(named_color_entry(126).0 == "seagreen"@);
    assert(named_color_entry(127).0 == "seashell"@);
    assert(named_color_entry(128).0 == "sienna"@);
    assert(named_color_entry(129).0 == "silver"@);
    assert(named_color_entry(130).0 == "skyblue"@);
    assert(named_color_entry(131).0 == "slateblue"@);
    assert(named_color_entry(132).0 == "slategray"@);
    assert(named_color_entry(133).0 == "slategrey"@);
    assert(named_color_entry(134).0 == "snow"@);
    assert(named_color_entry(135).0 == "springgreen"@);
    assert(named_color_entry(136).0 == "steelblue"@);
    assert(named_color_entry(137).0 == "tan"@);
    assert(named_color_entry(138).0 == "teal"@);
    assert(named_color_entry(139).0 == "thistle"@);
    assert(named_color_entry(140).0 == "tomato"@);
    assert(named_color_entry(141).0 == "turquoise"@);
    assert(named_color_entry(142).0 == "violet"@);
    assert(named_color_entry(143).0 == "wheat"@);
    assert(named_color_entry(144).0 == "white"@);
    assert(named_color_entry(145).0 == "whitesmoke"@);
    assert(named_color_entry(146).0 == "yellow"@);
    assert(named_color_entry(147).0 == "yellowgreen"@);
}

/// The entries are listed in strictly increasing order of their codes, so a
/// name whose code lies strictly between those of entries `k` and `k + 1`
/// (below the first when `k` is -1, above the last when `k` is the last
/// index) names no colour.
pub proof fn lemma_not_named(name: Seq<char>, k: int)
    requires
        -1 <= k < NAMED_COLOR_COUNT,
        k == -1 || table_code(k) < name_code(name, 20),
        k == NAMED_COLOR_COUNT - 1 || name_code(name, 20) < table_code(k + 1),
    ensures
        named_rgb(name) is None,
{
    lemma_named_rgb_table(name);
    if named_rgb(name) is Some {
        let i = choose|i: int| 0 <= i < NAMED_COLOR_COUNT && #[trigger] named_color_entry(i).0 == name;
        assert(table_code(i) == name_code(name, 20));
        if i < k {
            lemma_codes_increase(i, k);
        } else if i > k + 1 {
            lemma_codes_increase(k + 1, i);
        }
    }
}

#[verifier::spinoff_prover]
#[verifier::rlimit(50)]
proof fn lemma_codes_step_0(i: int)
    requires
        0 <= i < 20,
    ensures
        table_code(i) < table_code(i + 1),
{
    reveal_with_fuel(name_code, 21);
    if i == 0 {
        reveal_strlit("aliceblue");
        reveal_strlit("antiquewhite");
    } else if i == 1 {
        reveal_strlit("antiquewhite");
        reveal_strlit("aqua");
    } else if i == 2 {
        reveal_strlit("aqua");
        reveal_strlit("aquamarine");
    } else if i == 3 {
        reveal_strlit("aquamarine");
        reveal_strlit("azure");
    } else if i == 4 {
        reveal_strlit("azure");
        reveal_strlit("beige");
    } else if i == 5 {
        reveal_strlit("beige");
        reveal_strlit("bisque");
    } else if i == 6 {
        reveal_strlit("bisque");
        reveal_strlit("black");
    } else if i == 7 {
        reveal_strlit("black");
        reveal_strlit("blanchedalmond");
    } else if i == 8 {
        reveal_strlit("blanchedalmond");
        reveal_strlit("blue");
    } else if i == 9 {
        reveal_strlit("blue");
        reveal_strlit("blueviolet");
    } else if i == 10 {
        reveal_strlit("blueviolet");
        reveal_strlit("brown");
    } else if i == 11 {
        reveal_strlit("brown");
        reveal_strlit("burlywood");
    } else if i == 12 {
        reveal_strlit("burlywood");
        reveal_strlit("cadetblue");
    } else if i == 13 {
        reveal_strlit("cadetblue");
        reveal_strlit("chartreuse");
    } else if i == 14 {
        reveal_strlit("chartreuse");
        reveal_strlit("chocolate");
    } else if i == 15 {
        reveal_strlit("chocolate");
        reveal_strlit("coral");
    } else if i == 16 {
        reveal_strlit("coral");
        reveal_strlit("cornflowerblue");
    } else if i == 17 {
        reveal_strlit("cornflowerblue");
        reveal_strlit("cornsilk");
    } else if i == 18 {
        reveal_strlit("cornsilk");
        reveal_strlit("crimson");
    } else if i == 19 {
        reveal_strlit("crimson");
        reveal_strlit("cyan");
    }
}

#[verifier::spinoff_prover]
#[verifier::rlimit(50)]
proof fn lemma_codes_step_1(i: int)
    requires
        20 <= i < 40,
    ensures
        table_code(i) < table_code(i + 1),
{
    reveal_with_fuel(name_code, 21);
    if i == 20 {
        reveal_strlit("cyan");
        reveal_strlit("darkblue");
    } else if i == 21 {
        reveal_strlit("darkblue");
        reveal_strlit("darkcyan");
    } else if i == 22 {
        reveal_strlit("darkcyan");
        reveal_strlit("darkgoldenrod");
    } else if i == 23 {
        reveal_strlit("darkgoldenrod");
        reveal_strlit("darkgray");
    } else if i == 24 {
        reveal_strlit("darkgray");
        reveal_strlit("darkgreen");
    } else if i == 25 {
        reveal_strlit("darkgreen");
        reveal_strlit("darkgrey");
    } else if i == 26 {
        reveal_strlit("darkgrey");
        reveal_strlit("darkkhaki");
    } else if i == 27 {
        reveal_strlit("darkkhaki");
        reveal_strlit("darkmagenta");
    } else if i == 28 {
        reveal_strlit("darkmagenta");
        reveal_strlit("darkolivegreen");
    } else if i == 29 {
        reveal_strlit("darkolivegreen");
        reveal_strlit("darkorange");
    } else if i == 30 {
        reveal_strlit("darkorange");
        reveal_strlit("darkorchid");
    } else if i == 31 {
        reveal_strlit("darkorchid");
        reveal_strlit("darkred");
    } else if i == 32 {
        reveal_strlit("darkred");
        reveal_strlit("darksalmon");
    } else if i == 33 {
        reveal_strlit("darksalmon");
        reveal_strlit("darkseagreen");
    } else if i == 34 {
        reveal_strlit("darkseagreen");
        reveal_strlit("darkslateblue");
    } else if i == 35 {
        reveal_strlit("darkslateblue");
        reveal_strlit("darkslategray");
    } else if i == 36 {
        reveal_strlit("darkslategray");
        reveal_strlit("darkslategrey");
    } else if i == 37 {
        reveal_strlit("darkslategrey");
        reveal_strlit("darkturquoise");
    } else if i == 38 {
        reveal_strlit("darkturquoise");
        reveal_strlit("darkviolet");
    } else if i == 39 {
        reveal_strlit("darkviolet");
        reveal_strlit("deeppink");
    }
}

#[verifier::spinoff_prover]
#[verifier::rlimit(50)]
proof fn lemma_codes_step_2(i: int)
    requires
        40 <= i < 60,
    ensures
        table_code(i) < table_code(i + 1),
{
    reveal_with_fuel(name_code, 21);
    if i == 40 {
        reveal_strlit("deeppink");
        reveal_strlit("deepskyblue");
    } else if i == 41 {
        reveal_strlit("deepskyblue");
        reveal_strlit("dimgray");
    } else if i == 42 {
        reveal_strlit("dimgray");
        reveal_strlit("dimgrey");
    } else if i == 43 {
        reveal_strlit("dimgrey");
        reveal_strlit("dodgerblue");
    } else if i == 44 {
        reveal_strlit("dodgerblue");
        reveal_strlit("firebrick");
    } else if i == 45 {
        reveal_strlit("firebrick");
        reveal_strlit("floralwhite");
    } else if i == 46 {
        reveal_strlit("floralwhite");
        reveal_strlit("forestgreen");
    } else if i == 47 {
        reveal_strlit("forestgreen");
        reveal_strlit("fuchsia");
    } else if i == 48 {
        reveal_strlit("fuchsia");
        reveal_strlit("gainsboro");
    } else if i == 49 {
        reveal_strlit("gainsboro");
        reveal_strlit("ghostwhite");
    } else if i == 50 {
        reveal_strlit("ghostwhite");
        reveal_strlit("gold");
    } else if i == 51 {
        reveal_strlit("gold");
        reveal_strlit("goldenrod");
    } else if i == 52 {
        reveal_strlit("goldenrod");
        reveal_strlit("gray");
    } else if i == 53 {
        reveal_strlit("gray");
        reveal_strlit("green");
    } else if i == 54 {
        reveal_strlit("green");
        reveal_strlit("greenyellow");
    } else if i == 55 {
        reveal_strlit("greenyellow");
        reveal_strlit("grey");
    } else if i == 56 {
        reveal_strlit("grey");
        reveal_strlit("honeydew");
    } else if i == 57 {
        reveal_strlit("honeydew");
        reveal_strlit("hotpink");
    } else if i == 58 {
        reveal_strlit("hotpink");
        reveal_strlit("indianred");
    } else if i == 59 {
        reveal_strlit("indianred");
        reveal_strlit("indigo");
    }
}

#[verifier::spinoff_prover]
#[verifier::rlimit(50)]
proof fn lemma_codes_step_3(i: int)
    requires
        60 <= i < 80,
    ensures
        table_code(i) < table_code(i + 1),
{
    reveal_with_fuel(name_code, 21);
    if i == 60 {
        reveal_strlit("indigo");
        reveal_strlit("ivory");
    } else if i == 61 {
        reveal_strlit("ivory");
        reveal_strlit("khaki");
    } else if i == 62 {
        reveal_strlit("khaki");
        reveal_strlit("lavender");
    } else if i == 63 {
        reveal_strlit("lavender");
        reveal_strlit("lavenderblush");
    } else if i == 64 {
        reveal_strlit("lavenderblush");
        reveal_strlit("lawngreen");
    } else if i == 65 {
        reveal_strlit("lawngreen");
        reveal_strlit("lemonchiffon");
    } else if i == 66 {
        reveal_strlit("lemonchiffon");
        reveal_strlit("lightblue");
    } else if i == 67 {
        reveal_strlit("lightblue");
        reveal_strlit("lightcoral");
    } else if i == 68 {
        reveal_strlit("lightcoral");
        reveal_strlit("lightcyan");
    } else if i == 69 {
        reveal_strlit("lightcyan");
        reveal_strlit("lightgoldenrodyellow");
    } else if i == 70 {
        reveal_strlit("lightgoldenrodyellow");
        reveal_strlit("lightgray");
    } else if i == 71 {
        reveal_strlit("lightgray");
        reveal_strlit("lightgreen");
    } else if i == 72 {
        reveal_strlit("lightgreen");
        reveal_strlit("lightgrey");
    } else if i == 73 {
        reveal_strlit("lightgrey");
        reveal_strlit("lightpink");
    } else if i == 74 {
        reveal_strlit("lightpink");
        reveal_strlit("lightsalmon");
    } else if i == 75 {
        reveal_strlit("lightsalmon");
        reveal_strlit("lightseagreen");
    } else if i == 76 {
        reveal_strlit("lightseagreen");
        reveal_strlit("lightskyblue");
    } else if i == 77 {
        reveal_strlit("lightskyblue");
        reveal_strlit("lightslategray");
    } else if i == 78 {
        reveal_strlit("lightslategray");
        reveal_strlit("lightslategrey");
    } else if i == 79 {
        reveal_strlit("lightslategrey");
        reveal_strlit("lightsteelblue");
    }
}

#[verifier::spinoff_prover]
#[verifier::rlimit(50)]
proof fn lemma_codes_step_4(i: int)
    requires
        80 <= i < 100,
    ensures
        table_code(i) < table_code(i + 1),
{
    reveal_with_fuel(name_code, 21);
    if i == 80 {
        reveal_strlit("lightsteelblue");
        reveal_strlit("lightyellow");
    } else if i == 81 {
        reveal_strlit("lightyellow");
        reveal_strlit("lime");
    } else if i == 82 {
        reveal_strlit("lime");
        reveal_strlit("limegreen");
    } else if i == 83 {
        reveal_strlit("limegreen");
        reveal_strlit("linen");
    } else if i == 84 {
        reveal_strlit("linen");
        reveal_strlit("magenta");
    } else if i == 85 {
        reveal_strlit("magenta");
        reveal_strlit("maroon");
    } else if i == 86 {
        reveal_strlit("maroon");
        reveal_strlit("mediumaquamarine");
    } else if i == 87 {
        reveal_strlit("mediumaquamarine");
        reveal_strlit("mediumblue");
    } else if i == 88 {
        reveal_strlit("mediumblue");
        reveal_strlit("mediumorchid");
    } else if i == 89 {
        reveal_strlit("mediumorchid");
        reveal_strlit("mediumpurple");
    } else if i == 90 {
        reveal_strlit("mediumpurple");
        reveal_strlit("mediumseagreen");
    } else if i == 91 {
        reveal_strlit("mediumseagreen");
        reveal_strlit("mediumslateblue");
    } else if i == 92 {
        reveal_strlit("mediumslateblue");
        reveal_strlit("mediumspringgreen");
    } else if i == 93 {
        reveal_strlit("mediumspringgreen");
        reveal_strlit("mediumturquoise");
    } else if i == 94 {
        reveal_strlit("mediumturquoise");
        reveal_strlit("mediumvioletred");
    } else if i == 95 {
        reveal_strlit("mediumvioletred");
        reveal_strlit("midnightblue");
    } else if i == 96 {
        reveal_strlit("midnightblue");
        reveal_strlit("mintcream");
    } else if i == 97 {
        reveal_strlit("mintcream");
        reveal_strlit("mistyrose");
    } else if i == 98 {
        reveal_strlit("mistyrose");
        reveal_strlit("moccasin");
    } else if i == 99 {
        reveal_strlit("moccasin");
        reveal_strlit("navajowhite");
    }
}

#[verifier::spinoff_prover]
#[verifier::rlimit(50)]
proof fn lemma_codes_step_5(i: int)
    requires
        100 <= i < 120,
    ensures
        table_code(i) < table_code(i + 1),
{
    reveal_with_fuel(name_code, 21);
    if i == 100 {
        reveal_strlit("navajowhite");
        reveal_strlit("navy");
    } else if i == 101 {
        reveal_strlit("navy");
        reveal_strlit("oldlace");
    } else if i == 102 {
        reveal_strlit("oldlace");
        reveal_strlit("olive");
    } else if i == 103 {
        reveal_strlit("olive");
        reveal_strlit("olivedrab");
    } else if i == 104 {
        reveal_strlit("olivedrab");
        reveal_strlit("orange");
    } else if i == 105 {
        reveal_strlit("orange");
        reveal_strlit("orangered");
    } else if i == 106 {
        reveal_strlit("orangered");
        reveal_strlit("orchid");
    } else if i == 107 {
        reveal_strlit("orchid");
        reveal_strlit("palegoldenrod");
    } else if i == 108 {
        reveal_strlit("palegoldenrod");
        reveal_strlit("palegreen");
    } else if i == 109 {
        reveal_strlit("palegreen");
        reveal_strlit("paleturquoise");
    } else if i == 110 {
        reveal_strlit("paleturquoise");
        reveal_strlit("palevioletred");
    } else if i == 111 {
        reveal_strlit("palevioletred");
        reveal_strlit("papayawhip");
    } else if i == 112 {
        reveal_strlit("papayawhip");
        reveal_strlit("peachpuff");
    } else if i == 113 {
        reveal_strlit("peachpuff");
        reveal_strlit("peru");
    } else if i == 114 {
        reveal_strlit("peru");
        reveal_strlit("pink");
    } else if i == 115 {
        reveal_strlit("pink");
        reveal_strlit("plum");
    } else if i == 116 {
        reveal_strlit("plum");
        reveal_strlit("powderblue");
    } else if i == 117 {
        reveal_strlit("powderblue");
        reveal_strlit("purple");
    } else if i == 118 {
        reveal_strlit("purple");
        reveal_strlit("rebeccapurple");
    } else if i == 119 {
        reveal_strlit("rebeccapurple");
        reveal_strlit("red");
    }
}

#[verifier::spinoff_prover]
#[verifier::rlimit(50)]
proof fn lemma_codes_step_6(i: int)
    requires
        120 <= i < 140,
    ensures
        table_code(i) < table_code(i + 1),
{
    reveal_with_fuel(name_code, 21);
    if i == 120 {
        reveal_strlit("red");
        reveal_strlit("rosybrown");
    } else if i == 121 {
        reveal_strlit("rosybrown");
        reveal_strlit("royalblue");
    } else if i == 122 {
        reveal_strlit("royalblue");
        reveal_strlit("saddlebrown");
    } else if i == 123 {
        reveal_strlit("saddlebrown");
        reveal_strlit("salmon");
    } else if i == 124 {
        reveal_strlit("salmon");
        reveal_strlit("sandybrown");
    } else if i == 125 {
        reveal_strlit("sandybrown");
        reveal_strlit("seagreen");
    } else if i == 126 {
        reveal_strlit("seagreen");
        reveal_strlit("seashell");
    } else if i == 127 {
        reveal_strlit("seashell");
        reveal_strlit("sienna");
    } else if i == 128 {
        reveal_strlit("sienna");
        reveal_strlit("silver");
    } else if i == 129 {
        reveal_strlit("silver");
        reveal_strlit("skyblue");
    } else if i == 130 {
        reveal_strlit("skyblue");
        reveal_strlit("slateblue");
    } else if i == 131 {
        reveal_strlit("slateblue");
        reveal_strlit("slategray");
    } else if i == 132 {
        reveal_strlit("slategray");
        reveal_strlit("slategrey");
    } else if i == 133 {
        reveal_strlit("slategrey");
        reveal_strlit("snow");
    } else if i == 134 {
        reveal_strlit("snow");
        reveal_strlit("springgreen");
    } else if i == 135 {
        reveal_strlit("springgreen");
        reveal_strlit("steelblue");
    } else if i == 136 {
        reveal_strlit("steelblue");
        reveal_strlit("tan");
    } else if i == 137 {
        reveal_strlit("tan");
        reveal_strlit("teal");
    } else if i == 138 {
        reveal_strlit("teal");
        reveal_strlit("thistle");
    } else if i == 139 {
        reveal_strlit("thistle");
        reveal_strlit("tomato");
    }
}

#[verifier::spinoff_prover]
#[verifier::rlimit(50)]
proof fn lemma_codes_step_7(i: int)
    requires
        140 <= i < 147,
    ensures
        table_code(i) < table_code(i + 1),
{
    reveal_with_fuel(name_code, 21);
    if i == 140 {
        reveal_strlit("tomato");
        reveal_strlit("turquoise");
    } else if i == 141 {
        reveal_strlit("turquoise");
        reveal_strlit("violet");
    } else if i == 142 {
        reveal_strlit("violet");
        reveal_strlit("wheat");
    } else if i == 143 {
        reveal_strlit("wheat");
        reveal_strlit("white");
    } else if i == 144 {
        reveal_strlit("white");
        reveal_strlit("whitesmoke");
    } else if i == 145 {
        reveal_strlit("whitesmoke");
        reveal_strlit("yellow");
    } else if i == 146 {
        reveal_strlit("yellow");
        reveal_strlit("yellowgreen");
    }
}

proof fn lemma_codes_step(i: int)
    requires
        0 <= i < NAMED_COLOR_COUNT - 1,
    ensures
        table_code(i) < table_code(i + 1),
{
    if i < 20 {
        lemma_codes_step_0(i);
    } else if i < 40 {
        lemma_codes_step_1(i);
    } else if i < 60 {
        lemma_codes_step_2(i);
    } else if i < 80 {
        lemma_codes_step_3(i);
    } else if i < 100 {
        lemma_codes_step_4(i);
    } else if i < 120 {
        lemma_codes_step_5(i);
    } else if i < 140 {
        lemma_codes_step_6(i);
    } else if i < 147 {
        lemma_codes_step_7(i);
    }
}

#[verifier::rlimit(50)]
fn table_entry(i: usize) -> (e: (&'static str, u8, u8, u8))
    requires
        i < NAMED_COLOR_COUNT,
    ensures
        (e.0@, e.1, e.2, e.3) == named_color_entry(i as int),
{
    if i == 0 {
        ("aliceblue", 240, 248, 255)
    } else if i == 1 {
        ("antiquewhite", 250, 235, 215)
    } else if i == 2 {
        ("aqua", 0, 255, 255)
    } else if i == 3 {
        ("aquamarine", 127, 255, 212)
    } else if i == 4 {
        ("azure", 240, 255, 255)
    } else if i == 5 {
        ("beige", 245, 245, 220)
    } else if i == 6 {
        ("bisque", 255, 228, 196)
    } else if i == 7 {
        ("black", 0, 0, 0)
    } else if i == 8 {
        ("blanchedalmond", 255, 235, 205)
    } else if i == 9 {
        ("blue", 0, 0, 255)
    } else if i == 10 {
        ("blueviolet", 138, 43, 226)
    } else if i == 11 {
        ("brown", 165, 42, 42)
    } else if i == 12 {
        ("burlywood", 222, 184, 135)
    } else if i == 13 {
        ("cadetblue", 95, 158, 160)
    } else if i == 14 {
        ("chartreuse", 127, 255, 0)
    } else if i == 15 {
        ("chocolate", 210, 105, 30)
    } else if i == 16 {
        ("coral", 255, 127, 80)
    } else if i == 17 {
        ("cornflowerblue", 100, 149, 237)
    } else if i == 18 {
        ("cornsilk", 255, 248, 220)
    } else if i == 19 {
        ("crimson", 220, 20, 60)
    } else if i == 20 {
        ("cyan", 0, 255, 255)
    } else if i == 21 {
        ("darkblue", 0, 0, 139)
    } else if i == 22 {
        ("darkcyan", 0, 139, 139)
    } else if i == 23 {
        ("darkgoldenrod", 184, 134, 11)
    } else if i == 24 {
        ("darkgray", 169, 169, 169)
    } else if i == 25 {
        ("darkgreen", 0, 100, 0)
    } else if i == 26 {
        ("darkgrey", 169, 169, 169)
    } else if i == 27 {
        ("darkkhaki", 189, 183, 107)
    } else if i == 28 {
        ("darkmagenta", 139, 0, 139)
    } else if i == 29 {
        ("darkolivegreen", 85, 107, 47)
    } else if i == 30 {
        ("darkorange", 255, 140, 0)
    } else if i == 31 {
        ("darkorchid", 153, 50, 204)
    } else if i == 32 {
        ("darkred", 139, 0, 0)
    } else if i == 33 {
        ("darksalmon", 233, 150, 122)
    } else if i == 34 {
        ("darkseagreen", 143, 188, 143)
    } else if i == 35 {
        ("darkslateblue", 72, 61, 139)
    } else if i == 36 {
        ("darkslategray", 47, 79, 79)
    } else if i == 37 {
        ("darkslategrey", 47, 79, 79)
    } else if i == 38 {
        ("darkturquoise", 0, 206, 209)
    } else if i == 39 {
        ("darkviolet", 148, 0, 211)
    } else if i == 40 {
        ("deeppink", 255, 20, 147)
    } else if i == 41 {
        ("deepskyblue", 0, 191, 255)
    } else if i == 42 {
        ("dimgray", 105, 105, 105)
    } else if i == 43 {
        ("dimgrey", 105, 105, 105)
    } else if i == 44 {
        ("dodgerblue", 30, 144, 255)
    } else if i == 45 {
        ("firebrick", 178, 34, 34)
    } else if i == 46 {
        ("floralwhite", 255, 250, 240)
    } else if i == 47 {
        ("forestgreen", 34, 139, 34)
    } else if i == 48 {
        ("fuchsia", 255, 0, 255)
    } else if i == 49 {
        ("gainsboro", 220, 220, 220)
    } else if i == 50 {
        ("ghostwhite", 248, 248, 255)
    } else if i == 51 {
        ("gold", 255, 215, 0)
    } else if i == 52 {
        ("goldenrod", 218, 165, 32)
    } else if i == 53 {
        ("gray", 128, 128, 128)
    } else if i == 54 {
        ("green", 0, 128, 0)
    } else if i == 55 {
        ("greenyellow", 173, 255, 47)
    } else if i == 56 {
        ("grey", 128, 128, 128)
    } else if i == 57 {
        ("honeydew", 240, 255, 240)
    } else if i == 58 {
        ("hotpink", 255, 105, 180)
    } else if i == 59 {
        ("indianred", 205, 92, 92)
    } else if i == 60 {
        ("indigo", 75, 0, 130)
    } else if i == 61 {
        ("ivory", 255, 255, 240)
    } else if i == 62 {
        ("khaki", 240, 230, 140)
    } else if i == 63 {
        ("lavender", 230, 230, 250)
    } else if i == 64 {
        ("lavenderblush", 255, 240, 245)
    } else if i == 65 {
        ("lawngreen", 124, 252, 0)
    } else if i == 66 {
        ("lemonchiffon", 255, 250, 205)
    } else if i == 67 {
        ("lightblue", 173, 216, 230)
    } else if i == 68 {
        ("lightcoral", 240, 128, 128)
    } else if i == 69 {
        ("lightcyan", 224, 255, 255)
    } else if i == 70 {
        ("lightgoldenrodyellow", 250, 250, 210)
    } else if i == 71 {
        ("lightgray", 211, 211, 211)
    } else if i == 72 {
        ("lightgreen", 144, 238, 144)
    } else if i == 73 {
        ("lightgrey", 211, 211, 211)
    } else if i == 74 {
        ("lightpink", 255, 182, 193)
    } else if i == 75 {
        ("lightsalmon", 255, 160, 122)
    } else if i == 76 {
        ("lightseagreen", 32, 178, 170)
    } else if i == 77 {
        ("lightskyblue", 135, 206, 250)
    } else if i == 78 {
        ("lightslategray", 119, 136, 153)
    } else if i == 79 {
        ("lightslategrey", 119, 136, 153)
    } else if i == 80 {
        ("lightsteelblue", 176, 196, 222)
    } else if i == 81 {
        ("lightyellow", 255, 255, 224)
    } else if i == 82 {
        ("lime", 0, 255, 0)
    } else if i == 83 {
        ("limegreen", 50, 205, 50)
    } else if i == 84 {
        ("linen", 250, 240, 230)
    } else if i == 85 {
        ("magenta", 255, 0, 255)
    } else if i == 86 {
        ("maroon", 128, 0, 0)
    } else if i == 87 {
        ("mediumaquamarine", 102, 205, 170)
    } else if i == 88 {
        ("mediumblue", 0, 0, 205)
    } else if i == 89 {
        ("mediumorchid", 186, 85, 211)
    } else if i == 90 {
        ("mediumpurple", 147, 112, 219)
    } else if i == 91 {
        ("mediumseagreen", 60, 179, 113)
    } else if i == 92 {
        ("mediumslateblue", 123, 104, 238)
    } else if i == 93 {
        ("mediumspringgreen", 0, 250, 154)
    } else if i == 94 {
        ("mediumturquoise", 72, 209, 204)
    } else if i == 95 {
        ("mediumvioletred", 199, 21, 133)
    } else if i == 96 {
        ("midnightblue", 25, 25, 112)
    } else if i == 97 {
        ("mintcream", 245, 255, 250)
    } else if i == 98 {
        ("mistyrose", 255, 228, 225)
    } else if i == 99 {
        ("moccasin", 255, 228, 181)
    } else if i == 100 {
        ("navajowhite", 255, 222, 173)
    } else if i == 101 {
        ("navy", 0, 0, 128)
    } else if i == 102 {
        ("oldlace", 253, 245, 230)
    } else if i == 103 {
        ("olive", 128, 128, 0)
    } else if i == 104 {
        ("olivedrab", 107, 142, 35)
    } else if i == 105 {
        ("orange", 255, 165, 0)
    } else if i == 106 {
        ("orangered", 255, 69, 0)
    } else if i == 107 {
        ("orchid", 218, 112, 214)
    } else if i == 108 {
        ("palegoldenrod", 238, 232, 170)
    } else if i == 109 {
        ("palegreen", 152, 251, 152)
    } else if i == 110 {
        ("paleturquoise", 175, 238, 238)
    } else if i == 111 {
        ("palevioletred", 219, 112, 147)
    } else if i == 112 {
        ("papayawhip", 255, 239, 213)
    } else if i == 113 {
        ("peachpuff", 255, 218, 185)
    } else if i == 114 {
        ("peru", 205, 133, 63)
    } else if i == 115 {
        ("pink", 255, 192, 203)
    } else if i == 116 {
        ("plum", 221, 160, 221)
    } else if i == 117 {
        ("powderblue", 176, 224, 230)
    } else if i == 118 {
        ("purple", 128, 0, 128)
    } else if i == 119 {
        ("rebeccapurple", 102, 51, 153)
    } else if i == 120 {
        ("red", 255, 0, 0)
    } else if i == 121 {
        ("rosybrown", 188, 143, 143)
    } else if i == 122 {
        ("royalblue", 65, 105, 225)
    } else if i == 123 {
        ("saddlebrown", 139, 69, 19)
    } else if i == 124 {
        ("salmon", 250, 128, 114)
    } else if i == 125 {
        ("sandybrown", 244, 164, 96)
    } else if i == 126 {
        ("seagreen", 46, 139, 87)
    } else if i == 127 {
        ("seashell", 255, 245, 238)
    } else if i == 128 {
        ("sienna", 160, 82, 45)
    } else if i == 129 {
        ("silver", 192, 192, 192)
    } else if i == 130 {
        ("skyblue", 135, 206, 235)
    } else if i == 131 {
        ("slateblue", 106, 90, 205)
    } else if i == 132 {
        ("slategray", 112, 128, 144)
    } else if i == 133 {
        ("slategrey", 112, 128, 144)
    } else if i == 134 {
        ("snow", 255, 250, 250)
    } else if i == 135 {
        ("springgreen", 0, 255, 127)
    } else if i == 136 {
        ("steelblue", 70, 130, 180)
    } else if i == 137 {
        ("tan", 210, 180, 140)
    } else if i == 138 {
        ("teal", 0, 128, 128)
    } else if i == 139 {
        ("thistle", 216, 191, 216)
    } else if i == 140 {
        ("tomato", 255, 99, 71)
    } else if i == 141 {
        ("turquoise", 64, 224, 208)
    } else if i == 142 {
        ("violet", 238, 130, 238)
    } else if i == 143 {
        ("wheat", 245, 222, 179)
    } else if i == 144 {
        ("white", 255, 255, 255)
    } else if i == 145 {
        ("whitesmoke", 245, 245, 245)
    } else if i == 146 {
        ("yellow", 255, 255, 0)
    } else {
        ("yellowgreen", 154, 205, 50)
    }
}

/// Looks `name` up in the named-colour table.
pub fn lookup_named(name: &Vec<char>) -> (r: Option<(u8, u8, u8)>)
    ensures
        r == named_rgb(name@),
{
    let mut i: usize = 0;
    while i < NAMED_COLOR_COUNT
        invariant
            i <= NAMED_COLOR_COUNT,
            named_rgb(name@) == named_rgb_from(name@, i as int),
        decreases NAMED_COLOR_COUNT - i,
    {
        let (n, r, g, b) = table_entry(i);
        let entry = chars_of(n);
        if entry.len() == name.len() && crate::text::matches_at(&entry, 0, name) {
            assert(entry@.subrange(0, name@.len() as int) =~= entry@);
            return Some((r, g, b));
        }
        proof {
            if entry@ == name@ {
                assert(entry@.subrange(0, name@.len() as int) =~= entry@);
            }
        }
        i = i + 1;
    }
    None
}

} // verus!
