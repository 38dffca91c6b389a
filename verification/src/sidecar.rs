//! Where the executable of a sidecar is found: beside the running executable.
use crate::error::Error;
use crate::path::{ends_with_name, extension, join, parent, same_bytes, without_extension};
#[allow(unused_imports)]
use crate::path::{
    is_name, law_base_survives, law_extension_round_trip, law_join_adds_names,
    law_one_piece_one_name, law_parent_of_joined, lead, lemma_piece_start_of_join, names,
    piece_start, spec_extension, spec_join, spec_parent, spec_without_extension, Lead, DOT,
    SEPARATOR,
};
use vstd::prelude::*;

verus! {

/// The directory name under which test executables are built.
pub open spec fn deps_name() -> Seq<u8> {
    seq![100u8, 101u8, 112u8, 115u8]
}

/// The extension `exe`.
pub open spec fn exe_extension() -> Seq<u8> {
    seq![101u8, 120u8, 101u8]
}

/// The directory that sidecars are looked up in, from that of the running executable. A test
/// executable stands in `deps`, one level below.
pub open spec fn base_dir<P>(exe_dir: P, in_deps: bool, above: Option<P>) -> P {
    if in_deps && above is Some {
        above->0
    } else {
        exe_dir
    }
}

/// Picks the directory that sidecars are looked up in: `exe_dir`, or the one `above` it if
/// `exe_dir` ends in `deps` and has one above.
pub fn pick_base_dir<P>(exe_dir: P, in_deps: bool, above: Option<P>) -> (dir: P)
    ensures
        dir == base_dir(exe_dir, in_deps, above),
{
    if in_deps {
        match above {
            Some(dir) => dir,
            None => exe_dir,
        }
    } else {
        exe_dir
    }
}

/// Whether the last component of a directory is `deps`.
pub open spec fn in_deps(dir: Seq<u8>) -> bool {
    names(dir).len() > 0 && names(dir).last() == deps_name()
}

/// The directory that sidecars of the executable at `exe` are looked up in.
pub open spec fn sidecar_dir(exe: Seq<u8>) -> Option<Seq<u8>> {
    match spec_parent(exe) {
        Some(dir) => Some(base_dir(dir, in_deps(dir), spec_parent(dir))),
        None => None,
    }
}

/// A Unix path without the extension `exe`; with any other extension, or none, it stays.
pub open spec fn without_exe(path: Seq<u8>) -> Seq<u8> {
    if spec_extension(path) == Some(exe_extension()) {
        spec_without_extension(path)
    } else {
        path
    }
}

/// Where the sidecar `command` of the Unix executable at `exe` is found.
pub open spec fn sidecar_path(exe: Seq<u8>, command: Seq<u8>) -> Option<Seq<u8>> {
    match sidecar_dir(exe) {
        Some(dir) => Some(without_exe(spec_join(dir, command))),
        None => None,
    }
}

/// Where the sidecar `command` is found on Unix, given the path of the running executable: in the
/// executable's directory, or one level up if that directory is `deps`. The extension `exe` is
/// dropped.
pub fn relative_command_path(exe_path: &[u8], command: &[u8]) -> (path: Result<Vec<u8>, Error>)
    ensures
        match path {
            Ok(found) => sidecar_path(exe_path@, command@) == Some(found@),
            Err(error) => error == Error::CurrentExeHasNoParent && sidecar_path(
                exe_path@,
                command@,
            ) is None,
        },
{
    let exe_dir = match parent(exe_path) {
        Some(dir) => dir,
        None => {
            return Err(Error::CurrentExeHasNoParent);
        },
    };
    let deps: [u8; 4] = [100, 101, 112, 115];
    assert(deps@ =~= deps_name());
    let deep = ends_with_name(exe_dir.as_slice(), deps.as_slice());
    let above = parent(exe_dir.as_slice());
    let dir = pick_base_dir(exe_dir, deep, above);
    let command_path = join(dir.as_slice(), command);
    let is_exe = match extension(command_path.as_slice()) {
        Some(ext) => {
            let exe: [u8; 3] = [101, 120, 101];
            assert(exe@ =~= exe_extension());
            same_bytes(ext.as_slice(), exe.as_slice())
        },
        None => false,
    };
    if is_exe {
        Ok(without_extension(command_path.as_slice()))
    } else {
        Ok(command_path)
    }
}

/// The path of an executable on Windows: with `.exe` added, unless `extension` is already `exe`.
/// What precedes the addition is kept, dots in the file name included.
pub open spec fn windows_path(path: Seq<u8>, extension: Option<Seq<u8>>) -> Seq<u8> {
    if extension == Some(exe_extension()) {
        path
    } else {
        path + seq![46u8] + exe_extension()
    }
}

/// The path of an executable on Windows, from the path as it was joined and the extension that it
/// has.
pub fn windows_command_path(command_path: Vec<u8>, extension: Option<&[u8]>) -> (path: Vec<u8>)
    ensures
        path@ == windows_path(
            command_path@,
            match extension {
                Some(ext) => Some(ext@),
                None => None,
            },
        ),
{
    let exe: [u8; 3] = [101, 120, 101];
    assert(exe@ =~= exe_extension());
    let already_exe = match extension {
        Some(ext) => same_bytes(ext, exe.as_slice()),
        None => false,
    };
    let mut path = command_path;
    if !already_exe {
        path.push(46);
        path.push(101);
        path.push(120);
        path.push(101);
        assert(path@ =~= command_path@ + seq![46u8] + exe_extension());
    }
    path
}

/// On Unix a sidecar is found at the same place with and without the extension `exe` in its name.
pub proof fn law_exe_extension_is_ignored(exe: Seq<u8>, command: Seq<u8>)
    requires
        command.len() > 0,
        command.last() != SEPARATOR,
        // Only one `exe` is dropped.
        sidecar_dir(exe) matches Some(dir) ==> spec_extension(spec_join(dir, command)) != Some(
            exe_extension(),
        ),
    ensures
        sidecar_path(exe, command.push(DOT) + exe_extension()) == sidecar_path(exe, command),
{
    let named = command.push(DOT) + exe_extension();
    if let Some(dir) = sidecar_dir(exe) {
        let path = spec_join(dir, command);
        assert(spec_join(dir, named) =~= path.push(DOT) + exe_extension());
        assert(path.last() == command.last());
        law_extension_round_trip(path, exe_extension());
    }
}

/// A command that is given by a relative path with a name in it is found in the directory of
/// sidecars: the path starts with that directory.
pub proof fn law_sidecar_is_in_dir(exe: Seq<u8>, command: Seq<u8>)
    requires
        lead(command) != Lead::Root,
        names(command).len() > 0,
    ensures
        sidecar_dir(exe) matches Some(dir) ==> sidecar_path(exe, command) is Some
            && dir.is_prefix_of(sidecar_path(exe, command)->0),
{
    if let Some(dir) = sidecar_dir(exe) {
        law_join_adds_names(dir, command);
        law_base_survives(dir, command);
    }
}

/// On Windows the path of an executable always ends in `.exe`, given that its extension was read
/// off its end, and everything before the addition is kept.
pub proof fn law_windows_path_ends_in_exe(path: Seq<u8>, extension: Option<Seq<u8>>)
    requires
        extension matches Some(ext) ==> (seq![DOT] + ext).is_suffix_of(path),
    ensures
        (seq![DOT] + exe_extension()).is_suffix_of(windows_path(path, extension)),
        path.is_prefix_of(windows_path(path, extension)),
        windows_path(windows_path(path, extension), Some(exe_extension())) == windows_path(
            path,
            extension,
        ),
{
    let added = path + seq![DOT] + exe_extension();
    assert(added.subrange(added.len() - 4, added.len() as int) =~= seq![DOT] + exe_extension());
}

/// Sidecars are looked up in the directory of the executable. Only if the last name of that
/// directory is `deps`, to the byte, they are looked up in the directory above. An executable that
/// has no directory has none for its sidecars.
pub proof fn law_only_deps_is_left(exe: Seq<u8>)
    ensures
        match spec_parent(exe) {
            None => sidecar_dir(exe) is None,
            Some(dir) => {
                let name = names(dir).last();
                let deps = names(dir).len() > 0 && name.len() == 4 && name[0] == 100u8 && name[1]
                    == 101u8 && name[2] == 112u8 && name[3] == 115u8;
                &&& sidecar_dir(exe) is Some
                &&& !deps ==> sidecar_dir(exe) == Some(dir)
                &&& deps && spec_parent(dir) is Some ==> sidecar_dir(exe) == spec_parent(dir)
            },
        },
{
    if let Some(dir) = spec_parent(exe) {
        let name = names(dir).last();
        if name.len() == 4 && name[0] == 100u8 && name[1] == 101u8 && name[2] == 112u8 && name[3]
            == 115u8 {
            assert(name =~= deps_name());
        }
    }
}

/// A sidecar is found beside the executable: in a directory that ends in any other name than
/// `deps`, it is found at the command's path in that very directory, whatever the executable is
/// called, unless the command ends in `.exe`.
pub proof fn law_sidecar_is_beside_the_executable(dir: Seq<u8>, app: Seq<u8>, command: Seq<u8>)
    requires
        dir.len() > 0,
        is_name(dir.skip(piece_start(dir))),
        names(dir).last() != seq![100u8, 101u8, 112u8, 115u8],
        !app.contains(47u8),
        app.len() > 0,
        app != seq![46u8],
        spec_extension(spec_join(dir, command)) != Some(seq![101u8, 120u8, 101u8]),
    ensures
        sidecar_path(spec_join(dir, app), command) == Some(spec_join(dir, command)),
{
    law_parent_of_joined(dir, app);
    law_only_deps_is_left(spec_join(dir, app));
    let name = names(dir).last();
    if name.len() == 4 && name[0] == 100u8 && name[1] == 101u8 && name[2] == 112u8 && name[3]
        == 115u8 {
        assert(name =~= seq![100u8, 101u8, 112u8, 115u8]);
    }
}

/// A test executable in `deps` finds its sidecars where an executable in the directory above does.
pub proof fn law_deps_is_as_the_directory_above(dir: Seq<u8>, app: Seq<u8>, command: Seq<u8>)
    requires
        dir.len() > 0,
        is_name(dir.skip(piece_start(dir))),
        names(dir).last() != seq![100u8, 101u8, 112u8, 115u8],
        !app.contains(47u8),
        app.len() > 0,
        app != seq![46u8],
    ensures
        sidecar_path(
            spec_join(spec_join(dir, seq![100u8, 101u8, 112u8, 115u8]), app),
            command,
        ) == sidecar_path(spec_join(dir, app), command),
{
    let deps = seq![100u8, 101u8, 112u8, 115u8];
    let below = spec_join(dir, deps);
    law_parent_of_joined(dir, app);
    law_parent_of_joined(dir, deps);
    law_join_adds_names(dir, deps);
    law_one_piece_one_name(deps);
    assert(names(below).last() == deps);
    lemma_piece_start_of_join(dir, deps);
    law_parent_of_joined(below, app);
    law_only_deps_is_left(spec_join(dir, app));
    law_only_deps_is_left(spec_join(below, app));
    let name = names(dir).last();
    if name.len() == 4 && name[0] == 100u8 && name[1] == 101u8 && name[2] == 112u8 && name[3]
        == 115u8 {
        assert(name =~= deps);
    }
}

/// Of the path of a sidecar only an extension of the three bytes `exe` is dropped: any other
/// extension is kept, and so is a path that has none.
pub proof fn law_only_exe_is_dropped(exe: Seq<u8>, command: Seq<u8>)
    ensures
        match sidecar_dir(exe) {
            None => sidecar_path(exe, command) is None,
            Some(dir) => {
                let path = spec_join(dir, command);
                let ext = spec_extension(path);
                let is_exe = ext is Some && ext->0.len() == 3 && ext->0[0] == 101u8 && ext->0[1]
                    == 120u8 && ext->0[2] == 101u8;
                &&& sidecar_path(exe, command) is Some
                &&& !is_exe ==> sidecar_path(exe, command) == Some(path)
                &&& is_exe ==> sidecar_path(exe, command) == Some(spec_without_extension(path))
            },
        },
{
    if let Some(dir) = sidecar_dir(exe) {
        if let Some(ext) = spec_extension(spec_join(dir, command)) {
            if ext.len() == 3 && ext[0] == 101u8 && ext[1] == 120u8 && ext[2] == 101u8 {
                assert(ext =~= exe_extension());
            }
        }
    }
}

/// On Windows the path stays as it is exactly if its extension is the three bytes `exe`, and
/// otherwise gets the four bytes `.exe`.
pub proof fn law_windows_path_gets_exe_once(path: Seq<u8>, extension: Option<Seq<u8>>)
    ensures
        extension == Some(seq![101u8, 120u8, 101u8]) ==> windows_path(path, extension) == path,
        extension != Some(seq![101u8, 120u8, 101u8]) ==> windows_path(path, extension) == path
            + seq![46u8, 101u8, 120u8, 101u8],
{
    assert(path + seq![46u8] + exe_extension() =~= path + seq![46u8, 101u8, 120u8, 101u8]);
}

/// The directory above is picked exactly if the executable is in `deps` and there is one.
pub proof fn law_base_dir_is_above_deps<P>(exe_dir: P, in_deps: bool, above: P)
    ensures
        base_dir(exe_dir, false, Some(above)) == exe_dir,
        base_dir(exe_dir, in_deps, None) == exe_dir,
        base_dir(exe_dir, true, Some(above)) == above,
{
}

} // verus!
