//! What the desktop application is staged with: the entry and icon that a Linux desktop
//! looks for, and the bundle of macOS.
use crate::paths;
use crate::paths::{join_path, parent};
use crate::text;
use vstd::prelude::*;
use vstd::string::*;

verus! {

/// How the desktop application is opened.
pub const LINUX_UI_APP_OPEN_ARGS: &'static str = "ui-app open";

/// Where a desktop looks for the application's entry, below a home directory.
pub const DESKTOP_FILE: &'static str = ".local/share/applications/marrow.desktop";

/// Where a desktop looks for the application's icon, below a home directory.
pub const ICON_FILE: &'static str = ".local/share/icons/hicolor/256x256/apps/marrow.png";

/// The files that a Linux desktop reads.
#[derive(Clone, Debug, Eq, PartialEq)]
pub struct LinuxDesktopAssets {
    pub desktop_path: String,
    pub icon_path: String,
}

/// The files that a Linux desktop reads, the directories that they need, and what the
/// entry holds.
#[derive(Clone, Debug, Eq, PartialEq)]
pub struct LinuxDesktopStage {
    pub assets: LinuxDesktopAssets,
    pub desktop_dir: Option<String>,
    pub icon_dir: Option<String>,
    pub entry: String,
}

/// The desktop entry that runs a command.
pub open spec fn desktop_entry(exec: Seq<char>) -> Seq<char> {
    "[Desktop Entry]\nVersion=1.0\nType=Application\nName=Marrow\nComment=AST Context Engine Dashboard\nExec="@
        + exec + "\nIcon=marrow\nTerminal=false\nCategories=Development;\n"@
}

/// The desktop entry that runs a command.
pub fn linux_desktop_entry(exec_command: &str) -> (r: String)
    ensures
        r@ == desktop_entry(exec_command@),
{
    "[Desktop Entry]\nVersion=1.0\nType=Application\nName=Marrow\nComment=AST Context Engine Dashboard\nExec=".to_owned().concat(
        exec_command,
    ).concat("\nIcon=marrow\nTerminal=false\nCategories=Development;\n")
}

/// The command that an entry runs: the one that was set, or the program's own.
pub open spec fn exec_command(exe: Seq<char>, set: Option<Seq<char>>) -> Seq<char> {
    match set {
        Some(command) => command,
        None => "\""@ + exe + "\" "@ + LINUX_UI_APP_OPEN_ARGS@,
    }
}

/// Whether a stage is the one below a base directory that runs a command.
pub open spec fn is_stage(stage: LinuxDesktopStage, base: Seq<char>, command: Seq<char>) -> bool {
    let desktop = paths::joined_path(base, DESKTOP_FILE@);
    let icon = paths::joined_path(base, ICON_FILE@);
    &&& stage.assets.desktop_path@ == desktop
    &&& stage.assets.icon_path@ == icon
    &&& text::opt_text(stage.desktop_dir) == paths::parent_path(desktop)
    &&& text::opt_text(stage.icon_dir) == paths::parent_path(icon)
    &&& stage.entry@ == desktop_entry(command)
}

/// What to stage below a base directory so that a desktop opens the program. `set` is
/// the command that was set in place of the program's own.
pub fn stage_linux_desktop_assets(base_root: &str, exe_path: &str, set: Option<&str>) -> (r:
    LinuxDesktopStage)
    ensures
        is_stage(r, base_root@, exec_command(exe_path@, text::opt_str(set))),
{
    match set {
        Some(command) => stage_linux_desktop_assets_with_exec(base_root, command),
        None => {
            let command = "\"".to_owned().concat(exe_path).concat("\" ").concat(
                LINUX_UI_APP_OPEN_ARGS,
            );
            stage_linux_desktop_assets_with_exec(base_root, &command)
        },
    }
}

/// What to stage below a base directory so that a desktop runs a command.
pub fn stage_linux_desktop_assets_with_exec(base_root: &str, exec_command: &str) -> (r:
    LinuxDesktopStage)
    ensures
        is_stage(r, base_root@, exec_command@),
{
    let desktop_path = join_path(base_root, DESKTOP_FILE);
    let icon_path = join_path(base_root, ICON_FILE);
    let desktop_dir = parent(&desktop_path);
    let icon_dir = parent(&icon_path);
    LinuxDesktopStage {
        assets: LinuxDesktopAssets { desktop_path, icon_path },
        desktop_dir,
        icon_dir,
        entry: linux_desktop_entry(exec_command),
    }
}

// ── The bundle of macOS ──────────────────────────────────────────────────────

/// The bundle's description.
pub const INFO_PLIST: &'static str =
    "<?xml version=\"1.0\" encoding=\"UTF-8\"?>\n<!DOCTYPE plist PUBLIC \"-//Apple//DTD PLIST 1.0//EN\" \"http://www.apple.com/DTDs/PropertyList-1.0.dtd\">\n<plist version=\"1.0\">\n<dict>\n    <key>CFBundleExecutable</key>\n    <string>marrow-launcher</string>\n    <key>CFBundleIdentifier</key>\n    <string>dev.marrow.app</string>\n    <key>CFBundleName</key>\n    <string>Marrow</string>\n    <key>CFBundleVersion</key>\n    <string>0.1.0</string>\n    <key>CFBundleShortVersionString</key>\n    <string>0.1.0</string>\n    <key>CFBundleIconFile</key>\n    <string>Marrow</string>\n    <key>LSMinimumSystemVersion</key>\n    <string>11.0</string>\n</dict>\n</plist>";

/// The script that starts the program from inside the bundle.
pub const LAUNCHER: &'static str =
    "#!/bin/sh\nHERE=\"$(CDPATH= cd -- \"$(dirname \"$0\")\" && pwd)\"\nexec \"$HERE/marrow\" ui-app open\n";

/// The places of a bundle below a base directory.
#[derive(Clone, Debug, Eq, PartialEq)]
pub struct MacosBundle {
    pub app_path: String,
    pub binary_dir: String,
    pub resources_dir: String,
    pub icon_path: String,
    pub plist_path: String,
    pub binary_path: String,
    pub launcher_path: String,
}

/// Where a bundle stands below a base directory.
pub open spec fn bundle_root(base: Seq<char>) -> Seq<char> {
    paths::joined_path(base, "Applications/Marrow.app"@)
}

/// Where the parts of a bundle go, below a base directory.
pub fn stage_macos_bundle(base_root: &str) -> (r: MacosBundle)
    ensures
        r.app_path@ == bundle_root(base_root@),
        r.binary_dir@ == paths::joined_path(bundle_root(base_root@), "Contents/MacOS"@),
        r.resources_dir@ == paths::joined_path(bundle_root(base_root@), "Contents/Resources"@),
        r.icon_path@ == paths::joined_path(r.resources_dir@, "Marrow.icns"@),
        r.plist_path@ == paths::joined_path(bundle_root(base_root@), "Contents/Info.plist"@),
        r.binary_path@ == paths::joined_path(r.binary_dir@, "marrow"@),
        r.launcher_path@ == paths::joined_path(r.binary_dir@, "marrow-launcher"@),
{
    let app_path = join_path(base_root, "Applications/Marrow.app");
    let binary_dir = join_path(&app_path, "Contents/MacOS");
    let resources_dir = join_path(&app_path, "Contents/Resources");
    MacosBundle {
        icon_path: join_path(&resources_dir, "Marrow.icns"),
        plist_path: join_path(&app_path, "Contents/Info.plist"),
        binary_path: join_path(&binary_dir, "marrow"),
        launcher_path: join_path(&binary_dir, "marrow-launcher"),
        app_path,
        binary_dir,
        resources_dir,
    }
}

/// The four bytes of a number, the greatest first.
pub open spec fn big_endian(n: u32) -> Seq<u8> {
    seq![
        (n / 0x100_0000) as u8,
        (n / 0x1_0000 % 0x100) as u8,
        (n / 0x100 % 0x100) as u8,
        (n % 0x100) as u8,
    ]
}

/// The number that four bytes write, the greatest first.
pub open spec fn big_endian_value(b: Seq<u8>) -> int {
    b[0] * 0x100_0000 + b[1] * 0x1_0000 + b[2] * 0x100 + b[3]
}

/// An icon file that holds one picture of 256 by 256 points.
pub open spec fn icns(png: Seq<u8>) -> Seq<u8> {
    seq![0x69u8, 0x63u8, 0x6eu8, 0x73u8] + big_endian((png.len() + 16) as u32) + seq![
        0x69u8,
        0x63u8,
        0x30u8,
        0x38u8,
    ] + big_endian((png.len() + 8) as u32) + png
}

fn push_big_endian(out: &mut Vec<u8>, n: u32)
    ensures
        final(out)@ == old(out)@ + big_endian(n),
{
    out.push((n / 0x100_0000) as u8);
    out.push((n / 0x1_0000 % 0x100) as u8);
    out.push((n / 0x100 % 0x100) as u8);
    out.push((n % 0x100) as u8);
    assert(out@ =~= old(out)@ + big_endian(n));
}

/// An icon file that holds one picture of 256 by 256 points.
pub fn icns_data(png: &Vec<u8>) -> (r: Vec<u8>)
    requires
        png.len() + 16 <= u32::MAX,
    ensures
        r@ == icns(png@),
{
    let block_len: u32 = 8u32 + png.len() as u32;
    let total_len: u32 = 8u32 + block_len;
    let mut out: Vec<u8> = vec![0x69u8, 0x63u8, 0x6eu8, 0x73u8];
    push_big_endian(&mut out, total_len);
    out.push(0x69u8);
    out.push(0x63u8);
    out.push(0x30u8);
    out.push(0x38u8);
    push_big_endian(&mut out, block_len);
    let ghost head = out@;
    let mut i: usize = 0;
    assert(png@.take(0) =~= Seq::empty());
    while i < png.len()
        invariant
            i <= png.len(),
            out@ == head + png@.take(i as int),
        decreases png.len() - i,
    {
        out.push(png[i]);
        assert(png@.take(i as int).push(png@[i as int]) =~= png@.take(i + 1));
        assert(out@ =~= head + png@.take(i + 1));
        i += 1;
    }
    assert(png@.take(png@.len() as int) =~= png@);
    assert(head =~= seq![0x69u8, 0x63u8, 0x6eu8, 0x73u8] + big_endian(total_len) + seq![
        0x69u8,
        0x63u8,
        0x30u8,
        0x38u8,
    ] + big_endian(block_len));
    out
}

/// Both lengths that an icon file states are true: of the whole file, and of the block
/// that ends with the picture.
pub proof fn law_icon_lengths_are_true(png: Seq<u8>)
    requires
        png.len() + 16 <= u32::MAX,
    ensures
        icns(png).len() == png.len() + 16,
        big_endian_value(icns(png).subrange(4, 8)) == icns(png).len(),
        big_endian_value(icns(png).subrange(12, 16)) == png.len() + 8,
        icns(png).skip(16) == png,
{
    let a = (png.len() + 16) as u32;
    let b = (png.len() + 8) as u32;
    lemma_big_endian(a);
    lemma_big_endian(b);
    assert(icns(png).subrange(4, 8) =~= big_endian(a));
    assert(icns(png).subrange(12, 16) =~= big_endian(b));
    assert(icns(png).skip(16) =~= png);
}

proof fn lemma_big_endian(n: u32)
    ensures
        big_endian_value(big_endian(n)) == n,
{
    assert(n / 0x100_0000 < 0x100);
    assert((n / 0x100_0000) as u8 == n / 0x100_0000);
    assert(n / 0x1_0000 / 0x100 == n / 0x100_0000);
    assert(n / 0x100 / 0x100 == n / 0x1_0000);
}

} // verus!
