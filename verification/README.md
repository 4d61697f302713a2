# coconutpak

CoconutPak packs of texts: the `.copt` text compiler, the pak manifest
checks, the compiler's login configuration, language codes, tags and
licenses, and the bookkeeping rules of the CoconutPak Island registry.

The library in `src/` is verified with Verus:

- `text_model` states what a compiled text is: the rules by which the XML
  events of a `.copt` text are read into a `TextContainer`, as spec
  functions; `text_compiler` reads them and is proved to follow those rules.
- `xml_events` and `markup` are the boundary to `xml-rs`, `pulldown-cmark`,
  `html_parser`, `ammonia`, `html-minifier`, `html-escape` and
  `language-tags`; what these crates compute is named, not re-stated.
- `compiler` checks a pak's manifest; `login_config` keeps one API key per
  registry URL.
- `languages`, `tags`, `license` store their values as text and read them
  back.
- `permissions` states when a permission is granted, for any kind of
  permission a server defines.
- `island_rules`, `compile_status`, `server_config` and `registry_config`
  hold the registry's decisions (which version or reports a request gets,
  who may yank, how secrets and cache keys are written) and its defaults.

`app/` is the `cocopak` command line: it reads the files of a pak, parses
the attribute values of its texts as `f32`, and reads and writes the
configuration file.
