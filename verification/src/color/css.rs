//! The named colours of CSS, all fully opaque.

use vstd::prelude::*;

use crate::color::Color;

verus! {

/// `#F0F8FF`
pub fn aliceblue() -> (color: Color)
    ensures
        color == Color::rgba(240, 248, 255, 255),
{
    Color::rgba(240, 248, 255, 255)
}

/// `#FAEBD7`
pub fn antiquewhite() -> (color: Color)
    ensures
        color == Color::rgba(250, 235, 215, 255),
{
    Color::rgba(250, 235, 215, 255)
}

/// `#00FFFF`
pub fn aqua() -> (color: Color)
    ensures
        color == Color::rgba(0, 255, 255, 255),
{
    Color::rgba(0, 255, 255, 255)
}

/// `#7FFFD4`
pub fn aquamarine() -> (color: Color)
    ensures
        color == Color::rgba(127, 255, 212, 255),
{
    Color::rgba(127, 255, 212, 255)
}

/// `#F0FFFF`
pub fn azure() -> (color: Color)
    ensures
        color == Color::rgba(240, 255, 255, 255),
{
    Color::rgba(240, 255, 255, 255)
}

/// `#F5F5DC`
pub fn beige() -> (color: Color)
    ensures
        color == Color::rgba(245, 245, 220, 255),
{
    Color::rgba(245, 245, 220, 255)
}

/// `#FFE4C4`
pub fn bisque() -> (color: Color)
    ensures
        color == Color::rgba(255, 228, 196, 255),
{
    Color::rgba(255, 228, 196, 255)
}

/// `#000000`
pub fn black() -> (color: Color)
    ensures
        color == Color::rgba(0, 0, 0, 255),
{
    Color::rgba(0, 0, 0, 255)
}

/// `#FFEBCD`
pub fn blanchedalmond() -> (color: Color)
    ensures
        color == Color::rgba(255, 235, 205, 255),
{
    Color::rgba(255, 235, 205, 255)
}

/// `#0000FF`
pub fn blue() -> (color: Color)
    ensures
        color == Color::rgba(0, 0, 255, 255),
{
    Color::rgba(0, 0, 255, 255)
}

/// `#8A2BE2`
pub fn blueviolet() -> (color: Color)
    ensures
        color == Color::rgba(138, 43, 226, 255),
{
    Color::rgba(138, 43, 226, 255)
}

/// `#A52A2A`
pub fn brown() -> (color: Color)
    ensures
        color == Color::rgba(165, 42, 42, 255),
{
    Color::rgba(165, 42, 42, 255)
}

/// `#DEB887`
pub fn burlywood() -> (color: Color)
    ensures
        color == Color::rgba(222, 184, 135, 255),
{
    Color::rgba(222, 184, 135, 255)
}

/// `#5F9EA0`
pub fn cadetblue() -> (color: Color)
    ensures
        color == Color::rgba(95, 158, 160, 255),
{
    Color::rgba(95, 158, 160, 255)
}

/// `#7FFF00`
pub fn chartreuse() -> (color: Color)
    ensures
        color == Color::rgba(127, 255, 0, 255),
{
    Color::rgba(127, 255, 0, 255)
}

/// `#D2691E`
pub fn chocolate() -> (color: Color)
    ensures
        color == Color::rgba(210, 105, 30, 255),
{
    Color::rgba(210, 105, 30, 255)
}

/// `#FF7F50`
pub fn coral() -> (color: Color)
    ensures
        color == Color::rgba(255, 127, 80, 255),
{
    Color::rgba(255, 127, 80, 255)
}

/// `#6495ED`
pub fn cornflowerblue() -> (color: Color)
    ensures
        color == Color::rgba(100, 149, 237, 255),
{
    Color::rgba(100, 149, 237, 255)
}

/// `#FFF8DC`
pub fn cornsilk() -> (color: Color)
    ensures
        color == Color::rgba(255, 248, 220, 255),
{
    Color::rgba(255, 248, 220, 255)
}

/// `#DC143C`
pub fn crimson() -> (color: Color)
    ensures
        color == Color::rgba(220, 20, 60, 255),
{
    Color::rgba(220, 20, 60, 255)
}

/// `#00FFFF`
pub fn cyan() -> (color: Color)
    ensures
        color == Color::rgba(0, 255, 255, 255),
{
    Color::rgba(0, 255, 255, 255)
}

/// `#00008B`
pub fn darkblue() -> (color: Color)
    ensures
        color == Color::rgba(0, 0, 139, 255),
{
    Color::rgba(0, 0, 139, 255)
}

/// `#008B8B`
pub fn darkcyan() -> (color: Color)
    ensures
        color == Color::rgba(0, 139, 139, 255),
{
    Color::rgba(0, 139, 139, 255)
}

/// `#B8860B`
pub fn darkgoldenrod() -> (color: Color)
    ensures
        color == Color::rgba(184, 134, 11, 255),
{
    Color::rgba(184, 134, 11, 255)
}

/// `#A9A9A9`
pub fn darkgray() -> (color: Color)
    ensures
        color == Color::rgba(169, 169, 169, 255),
{
    Color::rgba(169, 169, 169, 255)
}

/// `#006400`
pub fn darkgreen() -> (color: Color)
    ensures
        color == Color::rgba(0, 100, 0, 255),
{
    Color::rgba(0, 100, 0, 255)
}

/// `#A9A9A9`
pub fn darkgrey() -> (color: Color)
    ensures
        color == Color::rgba(169, 169, 169, 255),
{
    Color::rgba(169, 169, 169, 255)
}

/// `#BDB76B`
pub fn darkkhaki() -> (color: Color)
    ensures
        color == Color::rgba(189, 183, 107, 255),
{
    Color::rgba(189, 183, 107, 255)
}

/// `#8B008B`
pub fn darkmagenta() -> (color: Color)
    ensures
        color == Color::rgba(139, 0, 139, 255),
{
    Color::rgba(139, 0, 139, 255)
}

/// `#556B2F`
pub fn darkolivegreen() -> (color: Color)
    ensures
        color == Color::rgba(85, 107, 47, 255),
{
    Color::rgba(85, 107, 47, 255)
}

/// `#FF8C00`
pub fn darkorange() -> (color: Color)
    ensures
        color == Color::rgba(255, 140, 0, 255),
{
    Color::rgba(255, 140, 0, 255)
}

/// `#9932CC`
pub fn darkorchid() -> (color: Color)
    ensures
        color == Color::rgba(153, 50, 204, 255),
{
    Color::rgba(153, 50, 204, 255)
}

/// `#8B0000`
pub fn darkred() -> (color: Color)
    ensures
        color == Color::rgba(139, 0, 0, 255),
{
    Color::rgba(139, 0, 0, 255)
}

/// `#E9967A`
pub fn darksalmon() -> (color: Color)
    ensures
        color == Color::rgba(233, 150, 122, 255),
{
    Color::rgba(233, 150, 122, 255)
}

/// `#8FBC8F`
pub fn darkseagreen() -> (color: Color)
    ensures
        color == Color::rgba(143, 188, 143, 255),
{
    Color::rgba(143, 188, 143, 255)
}

/// `#483D8B`
pub fn darkslateblue() -> (color: Color)
    ensures
        color == Color::rgba(72, 61, 139, 255),
{
    Color::rgba(72, 61, 139, 255)
}

/// `#2F4F4F`
pub fn darkslategray() -> (color: Color)
    ensures
        color == Color::rgba(47, 79, 79, 255),
{
    Color::rgba(47, 79, 79, 255)
}

/// `#00CED1`
pub fn darkturquoise() -> (color: Color)
    ensures
        color == Color::rgba(0, 206, 209, 255),
{
    Color::rgba(0, 206, 209, 255)
}

/// `#9400D3`
pub fn darkviolet() -> (color: Color)
    ensures
        color == Color::rgba(148, 0, 211, 255),
{
    Color::rgba(148, 0, 211, 255)
}

/// `#FF1493`
pub fn deeppink() -> (color: Color)
    ensures
        color == Color::rgba(255, 20, 147, 255),
{
    Color::rgba(255, 20, 147, 255)
}

/// `#00BFFF`
pub fn deepskyblue() -> (color: Color)
    ensures
        color == Color::rgba(0, 191, 255, 255),
{
    Color::rgba(0, 191, 255, 255)
}

/// `#696969`
pub fn dimgray() -> (color: Color)
    ensures
        color == Color::rgba(105, 105, 105, 255),
{
    Color::rgba(105, 105, 105, 255)
}

/// `#1E90FF`
pub fn dodgerblue() -> (color: Color)
    ensures
        color == Color::rgba(30, 144, 255, 255),
{
    Color::rgba(30, 144, 255, 255)
}

/// `#B22222`
pub fn firebrick() -> (color: Color)
    ensures
        color == Color::rgba(178, 34, 34, 255),
{
    Color::rgba(178, 34, 34, 255)
}

/// `#FFFAF0`
pub fn floralwhite() -> (color: Color)
    ensures
        color == Color::rgba(255, 250, 240, 255),
{
    Color::rgba(255, 250, 240, 255)
}

/// `#228B22`
pub fn forestgreen() -> (color: Color)
    ensures
        color == Color::rgba(34, 139, 34, 255),
{
    Color::rgba(34, 139, 34, 255)
}

/// `#FF00FF`
pub fn fuchsia() -> (color: Color)
    ensures
        color == Color::rgba(255, 0, 255, 255),
{
    Color::rgba(255, 0, 255, 255)
}

/// `#DCDCDC`
pub fn gainsboro() -> (color: Color)
    ensures
        color == Color::rgba(220, 220, 220, 255),
{
    Color::rgba(220, 220, 220, 255)
}

/// `#F8F8FF`
pub fn ghostwhite() -> (color: Color)
    ensures
        color == Color::rgba(248, 248, 255, 255),
{
    Color::rgba(248, 248, 255, 255)
}

/// `#FFD700`
pub fn gold() -> (color: Color)
    ensures
        color == Color::rgba(255, 215, 0, 255),
{
    Color::rgba(255, 215, 0, 255)
}

/// `#DAA520`
pub fn goldenrod() -> (color: Color)
    ensures
        color == Color::rgba(218, 165, 32, 255),
{
    Color::rgba(218, 165, 32, 255)
}

/// `#808080`
pub fn gray() -> (color: Color)
    ensures
        color == Color::rgba(128, 128, 128, 255),
{
    Color::rgba(128, 128, 128, 255)
}

/// `#008000`
pub fn green() -> (color: Color)
    ensures
        color == Color::rgba(0, 128, 0, 255),
{
    Color::rgba(0, 128, 0, 255)
}

/// `#ADFF2F`
pub fn greenyellow() -> (color: Color)
    ensures
        color == Color::rgba(173, 255, 47, 255),
{
    Color::rgba(173, 255, 47, 255)
}

/// `#808080`
pub fn grey() -> (color: Color)
    ensures
        color == Color::rgba(128, 128, 128, 255),
{
    Color::rgba(128, 128, 128, 255)
}

/// `#F0FFF0`
pub fn honeydew() -> (color: Color)
    ensures
        color == Color::rgba(240, 255, 240, 255),
{
    Color::rgba(240, 255, 240, 255)
}

/// `#FF69B4`
pub fn hotpink() -> (color: Color)
    ensures
        color == Color::rgba(255, 105, 180, 255),
{
    Color::rgba(255, 105, 180, 255)
}

/// `#CD5C5C`
pub fn indianred() -> (color: Color)
    ensures
        color == Color::rgba(205, 92, 92, 255),
{
    Color::rgba(205, 92, 92, 255)
}

/// `#4B0082`
pub fn indigo() -> (color: Color)
    ensures
        color == Color::rgba(75, 0, 130, 255),
{
    Color::rgba(75, 0, 130, 255)
}

/// `#FFFFF0`
pub fn ivory() -> (color: Color)
    ensures
        color == Color::rgba(255, 255, 240, 255),
{
    Color::rgba(255, 255, 240, 255)
}

/// `#F0E68C`
pub fn khaki() -> (color: Color)
    ensures
        color == Color::rgba(240, 230, 140, 255),
{
    Color::rgba(240, 230, 140, 255)
}

/// `#E6E6FA`
pub fn lavender() -> (color: Color)
    ensures
        color == Color::rgba(230, 230, 250, 255),
{
    Color::rgba(230, 230, 250, 255)
}

/// `#FFF0F5`
pub fn lavenderblush() -> (color: Color)
    ensures
        color == Color::rgba(255, 240, 245, 255),
{
    Color::rgba(255, 240, 245, 255)
}

/// `#7CFC00`
pub fn lawngreen() -> (color: Color)
    ensures
        color == Color::rgba(124, 252, 0, 255),
{
    Color::rgba(124, 252, 0, 255)
}

/// `#FFFACD`
pub fn lemonchiffon() -> (color: Color)
    ensures
        color == Color::rgba(255, 250, 205, 255),
{
    Color::rgba(255, 250, 205, 255)
}

/// `#ADD8E6`
pub fn lightblue() -> (color: Color)
    ensures
        color == Color::rgba(173, 216, 230, 255),
{
    Color::rgba(173, 216, 230, 255)
}

/// `#F08080`
pub fn lightcoral() -> (color: Color)
    ensures
        color == Color::rgba(240, 128, 128, 255),
{
    Color::rgba(240, 128, 128, 255)
}

/// `#E0FFFF`
pub fn lightcyan() -> (color: Color)
    ensures
        color == Color::rgba(224, 255, 255, 255),
{
    Color::rgba(224, 255, 255, 255)
}

/// `#FAFAD2`
pub fn lightgoldenrodyellow() -> (color: Color)
    ensures
        color == Color::rgba(250, 250, 210, 255),
{
    Color::rgba(250, 250, 210, 255)
}

/// `#D3D3D3`
pub fn lightgray() -> (color: Color)
    ensures
        color == Color::rgba(211, 211, 211, 255),
{
    Color::rgba(211, 211, 211, 255)
}

/// `#90EE90`
pub fn lightgreen() -> (color: Color)
    ensures
        color == Color::rgba(144, 238, 144, 255),
{
    Color::rgba(144, 238, 144, 255)
}

/// `#D3D3D3`
pub fn lightgrey() -> (color: Color)
    ensures
        color == Color::rgba(211, 211, 211, 255),
{
    Color::rgba(211, 211, 211, 255)
}

/// `#FFB6C1`
pub fn lightpink() -> (color: Color)
    ensures
        color == Color::rgba(255, 182, 193, 255),
{
    Color::rgba(255, 182, 193, 255)
}

/// `#FFA07A`
pub fn lightsalmon() -> (color: Color)
    ensures
        color == Color::rgba(255, 160, 122, 255),
{
    Color::rgba(255, 160, 122, 255)
}

/// `#20B2AA`
pub fn lightseagreen() -> (color: Color)
    ensures
        color == Color::rgba(32, 178, 170, 255),
{
    Color::rgba(32, 178, 170, 255)
}

/// `#87CEFA`
pub fn lightskyblue() -> (color: Color)
    ensures
        color == Color::rgba(135, 206, 250, 255),
{
    Color::rgba(135, 206, 250, 255)
}

/// `#778899`
pub fn lightslategray() -> (color: Color)
    ensures
        color == Color::rgba(119, 136, 153, 255),
{
    Color::rgba(119, 136, 153, 255)
}

/// `#B0C4DE`
pub fn lightsteelblue() -> (color: Color)
    ensures
        color == Color::rgba(176, 196, 222, 255),
{
    Color::rgba(176, 196, 222, 255)
}

/// `#FFFFE0`
pub fn lightyellow() -> (color: Color)
    ensures
        color == Color::rgba(255, 255, 224, 255),
{
    Color::rgba(255, 255, 224, 255)
}

/// `#00FF00`
pub fn lime() -> (color: Color)
    ensures
        color == Color::rgba(0, 255, 0, 255),
{
    Color::rgba(0, 255, 0, 255)
}

/// `#32CD32`
pub fn limegreen() -> (color: Color)
    ensures
        color == Color::rgba(50, 205, 50, 255),
{
    Color::rgba(50, 205, 50, 255)
}

/// `#FAF0E6`
pub fn linen() -> (color: Color)
    ensures
        color == Color::rgba(250, 240, 230, 255),
{
    Color::rgba(250, 240, 230, 255)
}

/// `#FF00FF`
pub fn magenta() -> (color: Color)
    ensures
        color == Color::rgba(255, 0, 255, 255),
{
    Color::rgba(255, 0, 255, 255)
}

/// `#800000`
pub fn maroon() -> (color: Color)
    ensures
        color == Color::rgba(128, 0, 0, 255),
{
    Color::rgba(128, 0, 0, 255)
}

/// `#66CDAA`
pub fn mediumaquamarine() -> (color: Color)
    ensures
        color == Color::rgba(102, 205, 170, 255),
{
    Color::rgba(102, 205, 170, 255)
}

/// `#0000CD`
pub fn mediumblue() -> (color: Color)
    ensures
        color == Color::rgba(0, 0, 205, 255),
{
    Color::rgba(0, 0, 205, 255)
}

/// `#BA55D3`
pub fn mediumorchid() -> (color: Color)
    ensures
        color == Color::rgba(186, 85, 211, 255),
{
    Color::rgba(186, 85, 211, 255)
}

/// `#9370DB`
pub fn mediumpurple() -> (color: Color)
    ensures
        color == Color::rgba(147, 112, 219, 255),
{
    Color::rgba(147, 112, 219, 255)
}

/// `#3CB371`
pub fn mediumseagreen() -> (color: Color)
    ensures
        color == Color::rgba(60, 179, 113, 255),
{
    Color::rgba(60, 179, 113, 255)
}

/// `#7B68EE`
pub fn mediumslateblue() -> (color: Color)
    ensures
        color == Color::rgba(123, 104, 238, 255),
{
    Color::rgba(123, 104, 238, 255)
}

/// `#00FA9A`
pub fn mediumspringgreen() -> (color: Color)
    ensures
        color == Color::rgba(0, 250, 154, 255),
{
    Color::rgba(0, 250, 154, 255)
}

/// `#48D1CC`
pub fn mediumturquoise() -> (color: Color)
    ensures
        color == Color::rgba(72, 209, 204, 255),
{
    Color::rgba(72, 209, 204, 255)
}

/// `#C71585`
pub fn mediumvioletred() -> (color: Color)
    ensures
        color == Color::rgba(199, 21, 133, 255),
{
    Color::rgba(199, 21, 133, 255)
}

/// `#191970`
pub fn midnightblue() -> (color: Color)
    ensures
        color == Color::rgba(25, 25, 112, 255),
{
    Color::rgba(25, 25, 112, 255)
}

/// `#F5FFFA`
pub fn mintcream() -> (color: Color)
    ensures
        color == Color::rgba(245, 255, 250, 255),
{
    Color::rgba(245, 255, 250, 255)
}

/// `#FFE4E1`
pub fn mistyrose() -> (color: Color)
    ensures
        color == Color::rgba(255, 228, 225, 255),
{
    Color::rgba(255, 228, 225, 255)
}

/// `#FFE4B5`
pub fn moccasin() -> (color: Color)
    ensures
        color == Color::rgba(255, 228, 181, 255),
{
    Color::rgba(255, 228, 181, 255)
}

/// `#FFDEAD`
pub fn navajowhite() -> (color: Color)
    ensures
        color == Color::rgba(255, 222, 173, 255),
{
    Color::rgba(255, 222, 173, 255)
}

/// `#000080`
pub fn navy() -> (color: Color)
    ensures
        color == Color::rgba(0, 0, 128, 255),
{
    Color::rgba(0, 0, 128, 255)
}

/// `#FDF5E6`
pub fn oldlace() -> (color: Color)
    ensures
        color == Color::rgba(253, 245, 230, 255),
{
    Color::rgba(253, 245, 230, 255)
}

/// `#808000`
pub fn olive() -> (color: Color)
    ensures
        color == Color::rgba(128, 128, 0, 255),
{
    Color::rgba(128, 128, 0, 255)
}

/// `#6B8E23`
pub fn olivedrab() -> (color: Color)
    ensures
        color == Color::rgba(107, 142, 35, 255),
{
    Color::rgba(107, 142, 35, 255)
}

/// `#FFA500`
pub fn orange() -> (color: Color)
    ensures
        color == Color::rgba(255, 165, 0, 255),
{
    Color::rgba(255, 165, 0, 255)
}

/// `#FF4500`
pub fn orangered() -> (color: Color)
    ensures
        color == Color::rgba(255, 69, 0, 255),
{
    Color::rgba(255, 69, 0, 255)
}

/// `#DA70D6`
pub fn orchid() -> (color: Color)
    ensures
        color == Color::rgba(218, 112, 214, 255),
{
    Color::rgba(218, 112, 214, 255)
}

/// `#EEE8AA`
pub fn palegoldenrod() -> (color: Color)
    ensures
        color == Color::rgba(238, 232, 170, 255),
{
    Color::rgba(238, 232, 170, 255)
}

/// `#98FB98`
pub fn palegreen() -> (color: Color)
    ensures
        color == Color::rgba(152, 251, 152, 255),
{
    Color::rgba(152, 251, 152, 255)
}

/// `#AFEEEE`
pub fn paleturquoise() -> (color: Color)
    ensures
        color == Color::rgba(175, 238, 238, 255),
{
    Color::rgba(175, 238, 238, 255)
}

/// `#DB7093`
pub fn palevioletred() -> (color: Color)
    ensures
        color == Color::rgba(219, 112, 147, 255),
{
    Color::rgba(219, 112, 147, 255)
}

/// `#FFEFD5`
pub fn papayawhip() -> (color: Color)
    ensures
        color == Color::rgba(255, 239, 213, 255),
{
    Color::rgba(255, 239, 213, 255)
}

/// `#FFDAB9`
pub fn peachpuff() -> (color: Color)
    ensures
        color == Color::rgba(255, 218, 185, 255),
{
    Color::rgba(255, 218, 185, 255)
}

/// `#CD853F`
pub fn peru() -> (color: Color)
    ensures
        color == Color::rgba(205, 133, 63, 255),
{
    Color::rgba(205, 133, 63, 255)
}

/// `#FFC0CB`
pub fn pink() -> (color: Color)
    ensures
        color == Color::rgba(255, 192, 203, 255),
{
    Color::rgba(255, 192, 203, 255)
}

/// `#DDA0DD`
pub fn plum() -> (color: Color)
    ensures
        color == Color::rgba(221, 160, 221, 255),
{
    Color::rgba(221, 160, 221, 255)
}

/// `#B0E0E6`
pub fn powderblue() -> (color: Color)
    ensures
        color == Color::rgba(176, 224, 230, 255),
{
    Color::rgba(176, 224, 230, 255)
}

/// `#800080`
pub fn purple() -> (color: Color)
    ensures
        color == Color::rgba(128, 0, 128, 255),
{
    Color::rgba(128, 0, 128, 255)
}

/// `#FF0000`
pub fn red() -> (color: Color)
    ensures
        color == Color::rgba(255, 0, 0, 255),
{
    Color::rgba(255, 0, 0, 255)
}

/// `#BC8F8F`
pub fn rosybrown() -> (color: Color)
    ensures
        color == Color::rgba(188, 143, 143, 255),
{
    Color::rgba(188, 143, 143, 255)
}

/// `#4169E1`
pub fn royalblue() -> (color: Color)
    ensures
        color == Color::rgba(65, 105, 225, 255),
{
    Color::rgba(65, 105, 225, 255)
}

/// `#8B4513`
pub fn saddlebrown() -> (color: Color)
    ensures
        color == Color::rgba(139, 69, 19, 255),
{
    Color::rgba(139, 69, 19, 255)
}

/// `#FA8072`
pub fn salmon() -> (color: Color)
    ensures
        color == Color::rgba(250, 128, 114, 255),
{
    Color::rgba(250, 128, 114, 255)
}

/// `#F4A460`
pub fn sandybrown() -> (color: Color)
    ensures
        color == Color::rgba(244, 164, 96, 255),
{
    Color::rgba(244, 164, 96, 255)
}

/// `#2E8B57`
pub fn seagreen() -> (color: Color)
    ensures
        color == Color::rgba(46, 139, 87, 255),
{
    Color::rgba(46, 139, 87, 255)
}

/// `#FFF5EE`
pub fn seashell() -> (color: Color)
    ensures
        color == Color::rgba(255, 245, 238, 255),
{
    Color::rgba(255, 245, 238, 255)
}

/// `#A0522D`
pub fn sienna() -> (color: Color)
    ensures
        color == Color::rgba(160, 82, 45, 255),
{
    Color::rgba(160, 82, 45, 255)
}

/// `#C0C0C0`
pub fn silver() -> (color: Color)
    ensures
        color == Color::rgba(192, 192, 192, 255),
{
    Color::rgba(192, 192, 192, 255)
}

/// `#87CEEB`
pub fn skyblue() -> (color: Color)
    ensures
        color == Color::rgba(135, 206, 235, 255),
{
    Color::rgba(135, 206, 235, 255)
}

/// `#6A5ACD`
pub fn slateblue() -> (color: Color)
    ensures
        color == Color::rgba(106, 90, 205, 255),
{
    Color::rgba(106, 90, 205, 255)
}

/// `#708090`
pub fn slategray() -> (color: Color)
    ensures
        color == Color::rgba(112, 128, 144, 255),
{
    Color::rgba(112, 128, 144, 255)
}

/// `#FFFAFA`
pub fn snow() -> (color: Color)
    ensures
        color == Color::rgba(255, 250, 250, 255),
{
    Color::rgba(255, 250, 250, 255)
}

/// `#00FF7F`
pub fn springgreen() -> (color: Color)
    ensures
        color == Color::rgba(0, 255, 127, 255),
{
    Color::rgba(0, 255, 127, 255)
}

/// `#4682B4`
pub fn steelblue() -> (color: Color)
    ensures
        color == Color::rgba(70, 130, 180, 255),
{
    Color::rgba(70, 130, 180, 255)
}

/// `#D2B48C`
pub fn tan() -> (color: Color)
    ensures
        color == Color::rgba(210, 180, 140, 255),
{
    Color::rgba(210, 180, 140, 255)
}

/// `#008080`
pub fn teal() -> (color: Color)
    ensures
        color == Color::rgba(0, 128, 128, 255),
{
    Color::rgba(0, 128, 128, 255)
}

/// `#D8BFD8`
pub fn thistle() -> (color: Color)
    ensures
        color == Color::rgba(216, 191, 216, 255),
{
    Color::rgba(216, 191, 216, 255)
}

/// `#FF6347`
pub fn tomato() -> (color: Color)
    ensures
        color == Color::rgba(255, 99, 71, 255),
{
    Color::rgba(255, 99, 71, 255)
}

/// `#40E0D0`
pub fn turquoise() -> (color: Color)
    ensures
        color == Color::rgba(64, 224, 208, 255),
{
    Color::rgba(64, 224, 208, 255)
}

/// `#EE82EE`
pub fn violet() -> (color: Color)
    ensures
        color == Color::rgba(238, 130, 238, 255),
{
    Color::rgba(238, 130, 238, 255)
}

/// `#F5DEB3`
pub fn wheat() -> (color: Color)
    ensures
        color == Color::rgba(245, 222, 179, 255),
{
    Color::rgba(245, 222, 179, 255)
}

/// `#FFFFFF`
pub fn white() -> (color: Color)
    ensures
        color == Color::rgba(255, 255, 255, 255),
{
    Color::rgba(255, 255, 255, 255)
}

/// `#F5F5F5`
pub fn whitesmoke() -> (color: Color)
    ensures
        color == Color::rgba(245, 245, 245, 255),
{
    Color::rgba(245, 245, 245, 255)
}

/// `#FFFF00`
pub fn yellow() -> (color: Color)
    ensures
        color == Color::rgba(255, 255, 0, 255),
{
    Color::rgba(255, 255, 0, 255)
}

/// `#9ACD32`
pub fn yellowgreen() -> (color: Color)
    ensures
        color == Color::rgba(154, 205, 50, 255),
{
    Color::rgba(154, 205, 50, 255)
}

} // verus!
