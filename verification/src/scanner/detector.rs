use crate::text::{chars_eq_str, to_chars};
use vstd::prelude::*;

verus! {

/// The ecosystems a project can belong to.
#[derive(Clone, Copy, Debug, PartialEq, Eq, Hash, Structural)]
pub enum ProjectType {
    NodeJs,
    Rust,
    Python,
    Java,
    Kotlin,
    Go,
    C,
    Cpp,
    Ruby,
    Swift,
    Php,
    Elixir,
    DotNet,
    Maven,
    Gradle,
    Generic,
}

/// What kind of thing a directory entry is.
#[derive(Clone, Copy, Debug, PartialEq, Eq, Structural)]
pub enum EntryKind {
    /// A regular file.
    File,
    /// A directory.
    Dir,
    /// A symbolic link or anything else.
    Other,
}

/// One entry of a directory listing.
#[derive(Debug)]
pub struct DirEntry {
    pub name: String,
    pub kind: EntryKind,
    /// Size in bytes, as the file system reports it.
    pub size: u64,
    /// Modification time in seconds since the epoch, where it could be read.
    pub modified: Option<i64>,
}

/// Length of the window within which a touched lock file marks a project as in
/// use: seven days, in seconds.
pub const IN_USE_WINDOW_SECS: i64 = 604800;

/// The colour name under which an ecosystem is displayed.
pub open spec fn color_of(t: ProjectType) -> Seq<char> {
    match t {
        ProjectType::NodeJs => "green"@,
        ProjectType::Rust => "red"@,
        ProjectType::Python => "blue"@,
        ProjectType::Java => "cyan"@,
        ProjectType::Kotlin => "cyan"@,
        ProjectType::Maven => "cyan"@,
        ProjectType::Gradle => "cyan"@,
        ProjectType::Go => "cyan"@,
        ProjectType::Ruby => "red"@,
        ProjectType::Swift => "yellow"@,
        ProjectType::Php => "magenta"@,
        ProjectType::Elixir => "magenta"@,
        ProjectType::DotNet => "blue"@,
        ProjectType::C => "white"@,
        ProjectType::Cpp => "white"@,
        ProjectType::Generic => "white"@,
    }
}

/// The display name of an ecosystem.
pub open spec fn name_of(t: ProjectType) -> Seq<char> {
    match t {
        ProjectType::NodeJs => "Node.js"@,
        ProjectType::Rust => "Rust"@,
        ProjectType::Python => "Python"@,
        ProjectType::Java => "Java"@,
        ProjectType::Kotlin => "Kotlin"@,
        ProjectType::Go => "Go"@,
        ProjectType::C => "C"@,
        ProjectType::Cpp => "C++"@,
        ProjectType::Ruby => "Ruby"@,
        ProjectType::Swift => "Swift"@,
        ProjectType::Php => "PHP"@,
        ProjectType::Elixir => "Elixir"@,
        ProjectType::DotNet => ".NET"@,
        ProjectType::Maven => "Maven"@,
        ProjectType::Gradle => "Gradle"@,
        ProjectType::Generic => "Generic"@,
    }
}

impl ProjectType {
    /// The colour name for command-line display.
    pub fn color(&self) -> (s: &'static str)
        ensures
            s@ == color_of(*self),
    {
        match self {
            ProjectType::NodeJs => "green",
            ProjectType::Rust => "red",
            ProjectType::Python => "blue",
            ProjectType::Java | ProjectType::Kotlin | ProjectType::Maven | ProjectType::Gradle => "cyan",
            ProjectType::Go => "cyan",
            ProjectType::Ruby => "red",
            ProjectType::Swift => "yellow",
            ProjectType::Php => "magenta",
            ProjectType::Elixir => "magenta",
            ProjectType::DotNet => "blue",
            _ => "white",
        }
    }

    /// The display name.
    pub fn name(&self) -> (s: &'static str)
        ensures
            s@ == name_of(*self),
    {
        match self {
            ProjectType::NodeJs => "Node.js",
            ProjectType::Rust => "Rust",
            ProjectType::Python => "Python",
            ProjectType::Java => "Java",
            ProjectType::Kotlin => "Kotlin",
            ProjectType::Go => "Go",
            ProjectType::C => "C",
            ProjectType::Cpp => "C++",
            ProjectType::Ruby => "Ruby",
            ProjectType::Swift => "Swift",
            ProjectType::Php => "PHP",
            ProjectType::Elixir => "Elixir",
            ProjectType::DotNet => ".NET",
            ProjectType::Maven => "Maven",
            ProjectType::Gradle => "Gradle",
            ProjectType::Generic => "Generic",
        }
    }
}

/// Whether a listing holds an entry called `name`.
pub open spec fn has_name(entries: Seq<DirEntry>, name: Seq<char>) -> bool {
    exists|i: int| 0 <= i < entries.len() && (#[trigger] entries[i]).name@ == name
}

/// The ecosystem of a directory with the given listing: the first, in a fixed
/// order of ecosystems, of which a marker file is present.
pub open spec fn detected(e: Seq<DirEntry>) -> Option<ProjectType> {
    if has_name(e, "package.json"@) || has_name(e, "package-lock.json"@) {
        Some(ProjectType::NodeJs)
    } else if has_name(e, "Cargo.toml"@) {
        Some(ProjectType::Rust)
    } else if has_name(e, "requirements.txt"@) || has_name(e, "setup.py"@) || has_name(
        e,
        "pyproject.toml"@,
    ) || has_name(e, "Pipfile"@) {
        Some(ProjectType::Python)
    } else if has_name(e, "pom.xml"@) {
        Some(ProjectType::Maven)
    } else if has_name(e, "build.gradle"@) || has_name(e, "build.gradle.kts"@) {
        Some(ProjectType::Gradle)
    } else if has_name(e, "go.mod"@) {
        Some(ProjectType::Go)
    } else if has_name(e, "Gemfile"@) {
        Some(ProjectType::Ruby)
    } else if has_name(e, "Package.swift"@) {
        Some(ProjectType::Swift)
    } else if has_name(e, "composer.json"@) {
        Some(ProjectType::Php)
    } else if has_name(e, "mix.exs"@) {
        Some(ProjectType::Elixir)
    } else if has_name(e, "*.csproj"@) || has_name(e, "*.sln"@) {
        Some(ProjectType::DotNet)
    } else if has_name(e, "CMakeLists.txt"@) || has_name(e, "Makefile"@) {
        Some(ProjectType::Cpp)
    } else {
        None
    }
}

/// The built-in cleanable patterns of an ecosystem.
pub open spec fn builtin_patterns(t: ProjectType) -> Seq<Seq<char>> {
    match t {
        ProjectType::NodeJs => seq![
            "node_modules"@,
            ".next"@,
            ".nuxt"@,
            "dist"@,
            "build"@,
            ".cache"@,
            ".turbo"@,
            ".parcel-cache"@,
        ],
        ProjectType::Rust => seq!["target"@],
        ProjectType::Python => seq![
            ".venv"@,
            "venv"@,
            "__pycache__"@,
            ".pytest_cache"@,
            ".mypy_cache"@,
            ".tox"@,
            "*.egg-info"@,
            ".eggs"@,
            "build"@,
            "dist"@,
        ],
        ProjectType::Java => seq!["target"@, "out"@],
        ProjectType::Maven => seq!["target"@, "out"@],
        ProjectType::Kotlin => seq!["build"@, ".gradle"@, "out"@],
        ProjectType::Gradle => seq!["build"@, ".gradle"@, "out"@],
        ProjectType::Go => seq!["vendor"@, "bin"@],
        ProjectType::C => seq!["build"@, "cmake-build-debug"@, "cmake-build-release"@, "out"@],
        ProjectType::Cpp => seq!["build"@, "cmake-build-debug"@, "cmake-build-release"@, "out"@],
        ProjectType::Ruby => seq!["vendor/bundle"@, ".bundle"@],
        ProjectType::Swift => seq![".build"@, "DerivedData"@, ".swiftpm"@],
        ProjectType::Php => seq!["vendor"@],
        ProjectType::Elixir => seq!["_build"@, "deps"@],
        ProjectType::DotNet => seq!["bin"@, "obj"@],
        ProjectType::Generic => seq![],
    }
}

/// The lock files whose recent change marks a project of an ecosystem as in use.
pub open spec fn lock_files(t: ProjectType) -> Seq<Seq<char>> {
    match t {
        ProjectType::NodeJs => seq!["package-lock.json"@, "yarn.lock"@, "pnpm-lock.yaml"@],
        ProjectType::Rust => seq!["Cargo.lock"@],
        ProjectType::Python => seq!["Pipfile.lock"@, "poetry.lock"@],
        ProjectType::Go => seq!["go.sum"@],
        ProjectType::Ruby => seq!["Gemfile.lock"@],
        ProjectType::Php => seq!["composer.lock"@],
        _ => seq![],
    }
}

/// The texts of a list of string slices.
pub open spec fn texts(v: Seq<&'static str>) -> Seq<Seq<char>> {
    Seq::new(v.len(), |i: int| v[i]@)
}

/// Whether an entry was modified at most `IN_USE_WINDOW_SECS` before `now` and
/// not after it.
pub open spec fn touched_recently(entry: DirEntry, now: i64) -> bool {
    match entry.modified {
        Some(m) => 0 <= now - m < IN_USE_WINDOW_SECS,
        None => false,
    }
}

/// Whether some entry named like one of `locks` was touched recently.
pub open spec fn recent_lock(entries: Seq<DirEntry>, locks: Seq<Seq<char>>, now: i64) -> bool {
    exists|i: int, j: int|
        0 <= i < entries.len() && 0 <= j < locks.len() && (#[trigger] entries[i]).name@
            == #[trigger] locks[j] && touched_recently(entries[i], now)
}

/// Whether a directory looks like a CMake build tree kept outside the sources:
/// it holds the build cache but not the project descriptor.
pub open spec fn cmake_out_of_source(entries: Seq<DirEntry>) -> bool {
    has_name(entries, "CMakeCache.txt"@) && !has_name(entries, "CMakeLists.txt"@)
}

/// Whether the listing holds an entry called `name`.
pub fn has_entry(entries: &Vec<DirEntry>, name: &str) -> (found: bool)
    ensures
        found == has_name(entries@, name@),
{
    let wanted = to_chars(name);
    let mut i: usize = 0;
    while i < entries.len()
        invariant
            i <= entries.len(),
            wanted@ == name@,
            forall|k: int| 0 <= k < i ==> (#[trigger] entries@[k]).name@ != name@,
        decreases entries.len() - i,
    {
        if chars_eq_str(&wanted, entries[i].name.as_str()) {
            return true;
        }
        i += 1;
    }
    false
}

/// Detects ecosystems from the marker files of a directory.
pub struct ProjectDetector;

impl ProjectDetector {
    /// The ecosystem of the directory with the given listing, by marker files.
    pub fn detect(entries: &Vec<DirEntry>) -> (t: Option<ProjectType>)
        ensures
            t == detected(entries@),
    {
        if has_entry(entries, "package.json") || has_entry(entries, "package-lock.json") {
            return Some(ProjectType::NodeJs);
        }
        if has_entry(entries, "Cargo.toml") {
            return Some(ProjectType::Rust);
        }
        if has_entry(entries, "requirements.txt") || has_entry(entries, "setup.py") || has_entry(
            entries,
            "pyproject.toml",
        ) || has_entry(entries, "Pipfile") {
            return Some(ProjectType::Python);
        }
        if has_entry(entries, "pom.xml") {
            return Some(ProjectType::Maven);
        }
        if has_entry(entries, "build.gradle") || has_entry(entries, "build.gradle.kts") {
            return Some(ProjectType::Gradle);
        }
        if has_entry(entries, "go.mod") {
            return Some(ProjectType::Go);
        }
        if has_entry(entries, "Gemfile") {
            return Some(ProjectType::Ruby);
        }
        if has_entry(entries, "Package.swift") {
            return Some(ProjectType::Swift);
        }
        if has_entry(entries, "composer.json") {
            return Some(ProjectType::Php);
        }
        if has_entry(entries, "mix.exs") {
            return Some(ProjectType::Elixir);
        }
        if has_entry(entries, "*.csproj") || has_entry(entries, "*.sln") {
            return Some(ProjectType::DotNet);
        }
        if has_entry(entries, "CMakeLists.txt") || has_entry(entries, "Makefile") {
            return Some(ProjectType::Cpp);
        }
        None
    }

    /// The built-in cleanable patterns of an ecosystem.
    pub fn cleanable_dirs(project_type: ProjectType) -> (dirs: Vec<&'static str>)
        ensures
            texts(dirs@) == builtin_patterns(project_type),
    {
        let dirs: Vec<&'static str> = match project_type {
            ProjectType::NodeJs => vec![
                "node_modules",
                ".next",
                ".nuxt",
                "dist",
                "build",
                ".cache",
                ".turbo",
                ".parcel-cache",
            ],
            ProjectType::Rust => vec!["target"],
            ProjectType::Python => vec![
                ".venv",
                "venv",
                "__pycache__",
                ".pytest_cache",
                ".mypy_cache",
                ".tox",
                "*.egg-info",
                ".eggs",
                "build",
                "dist",
            ],
            ProjectType::Java | ProjectType::Maven => vec!["target", "out"],
            ProjectType::Kotlin | ProjectType::Gradle => vec!["build", ".gradle", "out"],
            ProjectType::Go => vec!["vendor", "bin"],
            ProjectType::C | ProjectType::Cpp => vec![
                "build",
                "cmake-build-debug",
                "cmake-build-release",
                "out",
            ],
            ProjectType::Ruby => vec!["vendor/bundle", ".bundle"],
            ProjectType::Swift => vec![".build", "DerivedData", ".swiftpm"],
            ProjectType::Php => vec!["vendor"],
            ProjectType::Elixir => vec!["_build", "deps"],
            ProjectType::DotNet => vec!["bin", "obj"],
            ProjectType::Generic => Vec::new(),
        };
        assert(texts(dirs@) =~= builtin_patterns(project_type));
        dirs
    }

    /// The lock files of an ecosystem.
    pub fn lock_file_names(project_type: ProjectType) -> (names: Vec<&'static str>)
        ensures
            texts(names@) == lock_files(project_type),
    {
        let names: Vec<&'static str> = match project_type {
            ProjectType::NodeJs => vec!["package-lock.json", "yarn.lock", "pnpm-lock.yaml"],
            ProjectType::Rust => vec!["Cargo.lock"],
            ProjectType::Python => vec!["Pipfile.lock", "poetry.lock"],
            ProjectType::Go => vec!["go.sum"],
            ProjectType::Ruby => vec!["Gemfile.lock"],
            ProjectType::Php => vec!["composer.lock"],
            _ => Vec::new(),
        };
        assert(texts(names@) =~= lock_files(project_type));
        names
    }

    /// Whether a project is in use: a lock file of its ecosystem, in the
    /// listing of the project root, was touched within the last seven days
    /// before `now` (seconds since the epoch).
    pub fn is_in_use(entries: &Vec<DirEntry>, project_type: ProjectType, now: i64) -> (used: bool)
        ensures
            used == recent_lock(entries@, lock_files(project_type), now),
    {
        let names = Self::lock_file_names(project_type);
        Self::check_recent_lock_files(entries, &names, now)
    }

    /// Whether an entry named like one of `lock_files` was touched within the
    /// last seven days before `now`.
    pub fn check_recent_lock_files(
        entries: &Vec<DirEntry>,
        lock_files: &Vec<&'static str>,
        now: i64,
    ) -> (used: bool)
        ensures
            used == recent_lock(entries@, texts(lock_files@), now),
    {
        let mut j: usize = 0;
        while j < lock_files.len()
            invariant
                j <= lock_files.len(),
                forall|i: int, k: int|
                    0 <= i < entries.len() && 0 <= k < j ==> !((#[trigger] entries@[i]).name@
                        == #[trigger] texts(lock_files@)[k] && touched_recently(entries@[i], now)),
            decreases lock_files.len() - j,
        {
            let wanted = to_chars(lock_files[j]);
            let mut i: usize = 0;
            while i < entries.len()
                invariant
                    i <= entries.len(),
                    j < lock_files.len(),
                    wanted@ == texts(lock_files@)[j as int],
                    forall|m: int|
                        0 <= m < i ==> !((#[trigger] entries@[m]).name@ == wanted@
                            && touched_recently(entries@[m], now)),
                decreases entries.len() - i,
            {
                if chars_eq_str(&wanted, entries[i].name.as_str()) {
                    let recent = match entries[i].modified {
                        Some(m) => {
                            let elapsed: i128 = now as i128 - m as i128;
                            0 <= elapsed && elapsed < IN_USE_WINDOW_SECS as i128
                        },
                        None => false,
                    };
                    if recent {
                        assert(touched_recently(entries@[i as int], now));
                        return true;
                    }
                }
                i += 1;
            }
            j += 1;
        }
        false
    }

    /// Whether the directory with the given listing is a CMake build tree kept
    /// outside the sources.
    pub fn is_cmake_out_of_source(entries: &Vec<DirEntry>) -> (out: bool)
        ensures
            out == cmake_out_of_source(entries@),
    {
        has_entry(entries, "CMakeCache.txt") && !has_entry(entries, "CMakeLists.txt")
    }
}

} // verus!
