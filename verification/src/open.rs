//! Handing a path to the desktop: showing it in the file manager, or opening
//! a file with whatever the system associates with it.
use crate::invoke;
use crate::invoke::{order, with_argument, Order};
use crate::paths;
use crate::paths::{Location, Platform};
use crate::text;
use crate::text::cat;
use vstd::prelude::*;

verus! {

/// What shows a path in the file manager. A file is revealed in its folder.
pub open spec fn revealing(path: paths::LocationView, is_dir: bool, platform: Platform) -> invoke::OrderView {
    let shown = path.display(platform);
    match platform {
        Platform::Windows => invoke::OrderView {
            program: "explorer.exe"@,
            args: seq![
                if is_dir {
                    shown
                } else {
                    "/select,"@ + shown
                },
            ],
        },
        Platform::MacOs => invoke::OrderView {
            program: "open"@,
            args: if is_dir {
                seq![shown]
            } else {
                seq!["-R"@, shown]
            },
        },
        Platform::Linux => invoke::OrderView {
            program: "xdg-open"@,
            args: seq![
                match (is_dir, path.parent()) {
                    (false, Some(folder)) => folder.display(platform),
                    _ => shown,
                },
            ],
        },
    }
}

/// What shows a path in the file manager.
pub fn reveal_command(path: &Location, is_dir: bool, platform: Platform) -> (out: Order)
    ensures
        out@ == revealing(path@, is_dir, platform),
{
    let shown = path.display(platform);
    let out = match platform {
        Platform::Windows => if is_dir {
            with_argument(order("explorer.exe"), shown.as_str())
        } else {
            with_argument(order("explorer.exe"), cat("/select,", shown.as_str()).as_str())
        },
        Platform::MacOs => if is_dir {
            with_argument(order("open"), shown.as_str())
        } else {
            with_argument(with_argument(order("open"), "-R"), shown.as_str())
        },
        Platform::Linux => {
            let target = if is_dir {
                shown
            } else {
                match path.parent() {
                    Some(folder) => folder.display(platform),
                    None => shown,
                }
            };
            with_argument(order("xdg-open"), target.as_str())
        },
    };
    assert(out@ =~= revealing(path@, is_dir, platform));
    out
}

/// What opens a file with its application.
pub open spec fn launching(path: paths::LocationView, platform: Platform) -> invoke::OrderView {
    invoke::OrderView {
        program: match platform {
            Platform::Windows => "explorer.exe"@,
            Platform::MacOs => "open"@,
            Platform::Linux => "xdg-open"@,
        },
        args: seq![path.display(platform)],
    }
}

/// What opens something with its application, if it is a file.
pub open spec fn launched(path: paths::LocationView, is_dir: bool, platform: Platform) -> Option<
    invoke::OrderView,
> {
    if is_dir {
        None
    } else {
        Some(launching(path, platform))
    }
}

/// What opens a file with its application. Nothing is done for directories:
/// those are revealed.
pub fn launch(path: &Location, is_dir: bool, platform: Platform) -> (out: Option<Order>)
    ensures
        text::inside(out) == launched(path@, is_dir, platform),
{
    if is_dir {
        return None;
    }
    let program = match platform {
        Platform::Windows => "explorer.exe",
        Platform::MacOs => "open",
        Platform::Linux => "xdg-open",
    };
    let out = with_argument(order(program), path.display(platform).as_str());
    assert(out@ =~= launching(path@, platform));
    Some(out)
}

} // verus!
