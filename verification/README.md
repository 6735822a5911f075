# arc_core

The verified core of the Arc software manager: the rules its daemon, command
line and frontend follow, written in Verus with their contracts proved.

- `src/` is the library. Each module states what its functions return over
  spec functions and views, and proves it: package-file recognition and
  launch arguments (`deeplink`, `launch`), the description markup
  (`blocks`), the AppStream catalog and metainfo readers (`appstream`,
  `catalog`, `components`, `metainfo`, `xml`), the per-provider index files
  and listings (`appimage`, `distrobox`, `flatpak`, `games`, `webapps`,
  `extensions`, `leftovers`), transaction bookkeeping and the job life cycle
  (`transactions`, `jobs`, `install_search`, `routing`), the frontend's state
  (`nav`, `frontend`, `package_list`), media and icon rules (`media`,
  `icons`, `web_api`, `forge`).
- Calls into outside crates (`appstream`, `flate2`, `xmltree`, `rust-ini`,
  `percent-encoding`, `serde_json`, `uuid`, `tokio-util`) sit behind small
  trusted wrappers whose doc comments say what is assumed of them.
- `tests/` runs the library on concrete values.
- `app/` is the command-line program around the library: it reads files and
  arguments, and hands the library plain values.
