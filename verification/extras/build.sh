#!/bin/sh
# Runs a build command with what git says of the sources, so that the program can name its build.
# GIT_HASH, where it is set, comes first.
#
# Usage: extras/build.sh cargo build --release
GIT_DESCRIBE="$(git describe --always --dirty=+dev 2>/dev/null)"
export GIT_DESCRIBE
exec "$@"
